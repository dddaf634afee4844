use huohuo::archive::{archive_url, choose_port, parse_port_line};

#[test]
fn preferred_port_is_selected_when_free() {
    let port = choose_port(9876, |_port: u16| true).unwrap();
    assert_eq!(port, 9876);
}

#[test]
fn busy_preferred_port_falls_back_to_first_free_in_range() {
    let port = choose_port(8765, |port: u16| port >= 8770).unwrap();
    assert_eq!(port, 8770);
}

#[test]
fn no_free_port_is_an_error() {
    let result = choose_port(8765, |_port: u16| false);
    assert_eq!(
        result,
        Err("No available local port found for Archive.".to_string())
    );
}

#[test]
fn archive_url_names_the_port() {
    assert_eq!(archive_url(8765), "http://127.0.0.1:8765/?companion=external");
    assert_eq!(archive_url(0), "http://127.0.0.1:0/?companion=external");
}

#[test]
fn port_line_is_trimmed_and_parsed() {
    assert_eq!(parse_port_line(" 53125\n"), Ok(53125));
    assert_eq!(parse_port_line("+80"), Ok(80));
    assert_eq!(
        parse_port_line("70000\n"),
        Err("Model server returned invalid port: number too large to fit in target type".to_string())
    );
    assert_eq!(
        parse_port_line("\n"),
        Err("Model server returned invalid port: cannot parse integer from empty string".to_string())
    );
    assert_eq!(
        parse_port_line("80a"),
        Err("Model server returned invalid port: invalid digit found in string".to_string())
    );
}

#[test]
fn printed_ports_read_back() {
    for port in [0u16, 7, 10, 8765, 65535] {
        assert_eq!(parse_port_line(&format!("{port}\n")), Ok(port));
    }
}

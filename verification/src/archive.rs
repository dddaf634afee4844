use vstd::prelude::*;

use crate::text::{
    chars_of, concat_chars, decimal, decimal_exec, digit_char, in_class, lemma_trim_end_class,
    lemma_trim_start_class, starts_with, string_of, trim_class_exec, trim_white, CharClass,
};

verus! {

/// The port tried first for the Archive service.
pub const ARCHIVE_DEFAULT_PORT: u16 = 8765;

/// The first port of the fallback range (inclusive).
pub const FALLBACK_PORT_START: u16 = 8766;

/// The end of the fallback range (exclusive).
pub const FALLBACK_PORT_END: u16 = 8866;

pub open spec fn archive_url_spec(port: u16) -> Seq<char> {
    "http://127.0.0.1:"@ + decimal(port as nat) + "/?companion=external"@
}

/// The address of the Archive page opened in the companion window.
pub fn archive_url(port: u16) -> (url: String)
    ensures
        url@ == archive_url_spec(port),
{
    let a = chars_of("http://127.0.0.1:");
    let b = decimal_exec(port as u128);
    let c = chars_of("/?companion=external");
    string_of(&concat_chars(&concat_chars(&a, &b), &c))
}

pub open spec fn no_port_message() -> Seq<char> {
    "No available local port found for Archive."@
}

/// Picks the port for the Archive service: `preferred` when `is_free` says
/// it is free, else the first free port of `8766..8866`, else an error.
/// `is_free` is asked about the candidates in that order and no further
/// than the first free one.
pub fn choose_port<F: Fn(u16) -> bool>(preferred: u16, is_free: F) -> (res: Result<u16, String>)
    requires
        forall|p: u16| is_free.requires((p,)),
    ensures
        match res {
            Ok(p) => (p == preferred && is_free.ensures((preferred,), true)) || (
            is_free.ensures((preferred,), false) && FALLBACK_PORT_START <= p < FALLBACK_PORT_END
                && is_free.ensures((p,), true) && forall|q: u16|
                FALLBACK_PORT_START <= q < p ==> is_free.ensures((q,), false)),
            Err(e) => e@ == no_port_message() && is_free.ensures((preferred,), false) && forall|
                q: u16,
            |
                FALLBACK_PORT_START <= q < FALLBACK_PORT_END ==> is_free.ensures((q,), false),
        },
{
    if is_free(preferred) {
        return Ok(preferred);
    }
    let mut port: u16 = FALLBACK_PORT_START;
    while port < FALLBACK_PORT_END
        invariant
            FALLBACK_PORT_START <= port <= FALLBACK_PORT_END,
            forall|p: u16| is_free.requires((p,)),
            is_free.ensures((preferred,), false),
            forall|q: u16| FALLBACK_PORT_START <= q < port ==> is_free.ensures((q,), false),
        decreases FALLBACK_PORT_END - port,
    {
        if is_free(port) {
            return Ok(port);
        }
        port = port + 1;
    }
    Err(string_of(&chars_of("No available local port found for Archive.")))
}

/// The port of an Archive service that is already running: the last port
/// saved in the settings, 8765 when none was saved.
pub fn running_archive_port(last_archive_port: Option<u16>) -> (port: u16)
    ensures
        port == match last_archive_port {
            Some(p) => p,
            None => ARCHIVE_DEFAULT_PORT,
        },
{
    match last_archive_port {
        Some(p) => p,
        None => ARCHIVE_DEFAULT_PORT,
    }
}

// ---------------------------------------------------------------------------
// The model file server
// ---------------------------------------------------------------------------

pub open spec fn is_ascii_digit(c: char) -> bool {
    '0' <= c && c <= '9'
}

pub open spec fn digit_value(c: char) -> nat {
    ((c as u32) - ('0' as u32)) as nat
}

/// The value of a string of decimal digits.
pub open spec fn digits_value(s: Seq<char>) -> nat
    decreases s.len(),
{
    if s.len() == 0 {
        0
    } else {
        digits_value(s.drop_last()) * 10 + digit_value(s.last())
    }
}

/// The digits of an unsigned numeral: everything after an optional leading
/// `+`.
pub open spec fn numeral_digits(s: Seq<char>) -> Seq<char> {
    if s.len() > 0 && s[0] == '+' {
        s.drop_first()
    } else {
        s
    }
}

/// The value of `s` read as a `u16` numeral (`u16::from_str`): an optional
/// `+` followed by at least one decimal digit, with a value that fits.
pub open spec fn u16_numeral(s: Seq<char>) -> Option<u16> {
    let d = numeral_digits(s);
    if d.len() > 0 && (forall|i: int| 0 <= i < d.len() ==> is_ascii_digit(#[trigger] d[i]))
        && digits_value(d) <= u16::MAX {
        Some(digits_value(d) as u16)
    } else {
        None
    }
}

/// The message of the error that `u16::from_str` returns for `s`.
pub uninterp spec fn u16_parse_error_message(s: Seq<char>) -> Seq<char>;

/// `str::parse::<u16>`, with the error rendered by its `Display`.  As the
/// documentation of `u16::from_str_radix` says, the text is read as an
/// optional `+` followed by decimal digits only, and fails when it is
/// empty, holds another character, or the value does not fit; which
/// message an error carries is left to the named function.
#[verifier::external_body]
fn parse_u16(s: &str) -> (res: Result<u16, String>)
    ensures
        match res {
            Ok(v) => u16_numeral(s@) == Some(v),
            Err(e) => u16_numeral(s@) is None && e@ == u16_parse_error_message(s@),
        },
{
    s.parse::<u16>().map_err(|error| error.to_string())
}

proof fn lemma_decimal_reads_back(n: nat)
    ensures
        decimal(n).len() > 0,
        forall|i: int| 0 <= i < decimal(n).len() ==> is_ascii_digit(#[trigger] decimal(n)[i]),
        digits_value(decimal(n)) == n,
    decreases n,
{
    let d = if n < 10 { n } else { n % 10 };
    assert(digit_value(digit_char(d)) == d && is_ascii_digit(digit_char(d))) by {
        assert(d < 10);
    }
    if n >= 10 {
        lemma_decimal_reads_back(n / 10);
        let s = decimal(n);
        assert(s.drop_last() =~= decimal(n / 10));
        assert(s.last() == digit_char(n % 10));
        assert(digits_value(s) == digits_value(decimal(n / 10)) * 10 + digit_value(s.last()));
        assert((n / 10) * 10 + n % 10 == n) by (nonlinear_arith);
    } else {
        assert(decimal(n).drop_last() =~= Seq::<char>::empty());
        assert(digits_value(Seq::<char>::empty()) == 0);
        assert(decimal(n).last() == digit_char(n));
    }
}

/// What the model file server prints as its first line, a port in decimal
/// followed by a line break, reads back as that port.
pub proof fn law_port_line_round_trip(port: u16)
    ensures
        u16_numeral(trim_white(decimal(port as nat) + "\n"@)) == Some(port),
{
    let d = decimal(port as nat);
    lemma_decimal_reads_back(port as nat);
    reveal_strlit("\n");
    let line = d + "\n"@;
    assert(line.len() == d.len() + 1);
    assert(line[d.len() as int] == '\n');
    assert forall|j: int| 0 <= j < d.len() implies line[j] == d[j] by {}
    assert(is_ascii_digit(d[0]));
    lemma_trim_start_class(line, CharClass::White, 0);
    assert(line.skip(0) =~= line);
    assert(is_ascii_digit(d[d.len() - 1]));
    assert(!in_class(CharClass::White, line[d.len() - 1]));
    lemma_trim_end_class(line, CharClass::White, d.len() as int);
    assert(line.take(d.len() as int) =~= d);
    assert(numeral_digits(d) == d);
}

/// The address of a model file is the file name under the root of the
/// loopback server on the port: `http://127.0.0.1:`, the port in decimal,
/// which reads back as the port, then `/` and the file name.
pub proof fn law_model_file_url_shape(port: u16, file_name: Seq<char>)
    ensures
        ({
            let url = model_server_base_spec(port) + file_name;
            let head = "http://127.0.0.1:"@;
            let digits = url.subrange(head.len() as int, url.len() - file_name.len() - 1);
            &&& starts_with(url, head)
            &&& url[url.len() - file_name.len() - 1] == '/'
            &&& url.skip(url.len() - file_name.len()) == file_name
            &&& head.len() < url.len() - file_name.len() - 1
            &&& u16_numeral(digits) == Some(port)
        }),
{
    reveal_strlit("http://127.0.0.1:");
    reveal_strlit("/");
    let head = "http://127.0.0.1:"@;
    let d = decimal(port as nat);
    lemma_decimal_reads_back(port as nat);
    let url = model_server_base_spec(port) + file_name;
    assert(url =~= head + d + "/"@ + file_name);
    assert(url.take(head.len() as int) =~= head);
    assert(url.skip(url.len() - file_name.len()) =~= file_name);
    assert(url.subrange(head.len() as int, url.len() - file_name.len() - 1) =~= d);
    assert(numeral_digits(d) == d) by {
        assert(is_ascii_digit(d[0]));
    }
}

pub open spec fn invalid_port_message(line: Seq<char>) -> Seq<char> {
    "Model server returned invalid port: "@ + u16_parse_error_message(trim_white(line))
}

/// Reads the port that the model file server prints on its first line:
/// the trimmed line as a `u16`.
pub fn parse_port_line(line: &str) -> (res: Result<u16, String>)
    ensures
        match res {
            Ok(p) => u16_numeral(trim_white(line@)) == Some(p),
            Err(e) => u16_numeral(trim_white(line@)) is None && e@ == invalid_port_message(line@),
        },
{
    let cs = chars_of(line);
    let t = string_of(&trim_class_exec(&cs, CharClass::White));
    match parse_u16(t.as_str()) {
        Ok(p) => Ok(p),
        Err(e) => {
            let a = chars_of("Model server returned invalid port: ");
            let b = chars_of(e.as_str());
            Err(string_of(&concat_chars(&a, &b)))
        },
    }
}

pub open spec fn model_server_base_spec(port: u16) -> Seq<char> {
    "http://127.0.0.1:"@ + decimal(port as nat) + "/"@
}

/// The root address of a model file server on `port`.
pub fn model_server_base_url(port: u16) -> (url: String)
    ensures
        url@ == model_server_base_spec(port),
{
    let a = chars_of("http://127.0.0.1:");
    let b = decimal_exec(port as u128);
    let c = chars_of("/");
    string_of(&concat_chars(&concat_chars(&a, &b), &c))
}

/// The address under which the model file server on `port` serves the
/// model file `file_name`.
pub fn model_file_url(port: u16, file_name: &str) -> (url: String)
    ensures
        url@ == model_server_base_spec(port) + file_name@,
{
    let base = model_server_base_url(port);
    let a = chars_of(base.as_str());
    let b = chars_of(file_name);
    string_of(&concat_chars(&a, &b))
}

} // verus!

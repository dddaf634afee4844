use vstd::prelude::*;

use crate::text::{chars_of, string_of};

verus! {

/// The script injected into the iCity window: it restyles the post
/// composer into a compact card and marks its buttons.
pub const ICITY_COMPACT_SCRIPT: &'static str = r#"
(function() {
  const STYLE_ID = 'huohuo-icity-compact-style';
  const MARK_ATTR = 'data-huohuo-icity-compact';

  function installStyle() {
    let style = document.getElementById(STYLE_ID);
    if (!style) {
      style = document.createElement('style');
      style.id = STYLE_ID;
      document.head.appendChild(style);
    }
    style.textContent = `
      html.huohuo-icity-compact,
      html.huohuo-icity-compact body {
        background: #f7f4ea !important;
        color: #263934 !important;
        font-family: "Avenir Next", "PingFang SC", system-ui, sans-serif !important;
      }

      html.huohuo-icity-compact .post-composer,
      html.huohuo-icity-compact .huohuo-icity-composer {
        width: calc(100% - 28px) !important;
        max-width: 700px !important;
        min-height: 0 !important;
        margin: 12px auto 10px !important;
        padding: 10px 12px !important;
        border: 1px solid rgba(128, 176, 145, .30) !important;
        border-radius: 12px !important;
        background: rgba(255, 253, 247, .94) !important;
        box-shadow: 0 7px 18px rgba(83, 112, 89, .11), inset 0 1px 0 rgba(255,255,255,.92) !important;
      }

      html.huohuo-icity-compact .post-composer textarea,
      html.huohuo-icity-compact .post-composer [contenteditable="true"],
      html.huohuo-icity-compact .post-composer .textarea,
      html.huohuo-icity-compact .post-composer .content,
      html.huohuo-icity-compact .post-composer .body {
        min-height: 92px !important;
        max-height: 150px !important;
        padding: 4px !important;
        color: #263934 !important;
        font-size: 14px !important;
        line-height: 1.55 !important;
      }

      html.huohuo-icity-compact .huohuo-icity-action,
      html.huohuo-icity-compact .huohuo-icity-media {
        min-width: 0 !important;
        height: 30px !important;
        padding: 0 11px !important;
        border-radius: 999px !important;
        font-size: 12px !important;
        line-height: 30px !important;
        box-shadow: none !important;
      }

      html.huohuo-icity-compact .huohuo-icity-action {
        border: 1px solid rgba(49, 127, 121, .28) !important;
        background: #317f79 !important;
        color: #fffdf7 !important;
      }

      html.huohuo-icity-compact .huohuo-icity-media {
        border: 1px solid rgba(128, 176, 145, .26) !important;
        background: rgba(231, 237, 220, .82) !important;
        color: #51706a !important;
      }

      html.huohuo-icity-compact img.avatar,
      html.huohuo-icity-compact .avatar img,
      html.huohuo-icity-compact .post-composer img {
        width: 28px !important;
        height: 28px !important;
        border-radius: 50% !important;
      }

    `;
  }

  function textOf(element) {
    return ((element.value || element.innerText || element.textContent || '') + '').replace(/\s+/g, '');
  }

  function markControls() {
    const hasComposer = Boolean(document.querySelector('.post-composer'));
    document.documentElement.classList.toggle('huohuo-icity-compact', hasComposer);
    document.body?.classList.toggle('huohuo-icity-compact-body', hasComposer);
    if (!hasComposer) return;

    document.querySelectorAll('.post-composer').forEach((element) => {
      element.classList.add('huohuo-icity-composer');
    });

    document.querySelectorAll('button, a, label, input[type="button"], input[type="submit"], .btn, .submit, [role="button"]').forEach((element) => {
      const text = textOf(element);
      if (text === '发布' || text === '发表' || text === '发送') {
        element.classList.add('huohuo-icity-action');
      }
      if (text.includes('添加照片') || text.includes('添加图片') || text.includes('照片') || text.includes('图片')) {
        element.classList.add('huohuo-icity-media');
      }
    });
  }

  function apply() {
    if (!document.head || !document.documentElement) return;
    installStyle();
    markControls();
  }

  apply();
  if (!window[MARK_ATTR]) {
    window[MARK_ATTR] = true;
    document.addEventListener('DOMContentLoaded', apply);
    window.addEventListener('load', apply);
    const observer = new MutationObserver(() => {
      window.clearTimeout(window.__huohuoIcityCompactTimer);
      window.__huohuoIcityCompactTimer = window.setTimeout(apply, 80);
    });
    observer.observe(document.documentElement, { childList: true, subtree: true });
  }
})();
"#;

/// The Python program that serves a model directory over HTTP with CORS
/// headers, completing a model's settings with the expressions and motions
/// it finds, and prints its port on its first line.
pub const CORS_STATIC_SERVER_SCRIPT: &'static str = r#"
import http.server
import json
import os
import socketserver
import sys
import urllib.parse
from pathlib import Path

class Handler(http.server.SimpleHTTPRequestHandler):
    def end_headers(self):
        self.send_header("Access-Control-Allow-Origin", "*")
        self.send_header("Access-Control-Allow-Methods", "GET, HEAD, OPTIONS")
        self.send_header("Access-Control-Allow-Headers", "*")
        self.send_header("Cache-Control", "no-store")
        super().end_headers()

    def do_OPTIONS(self):
        self.send_response(204)
        self.end_headers()

    def do_GET(self):
        parsed = urllib.parse.urlparse(self.path)
        if parsed.path.endswith(".model3.json"):
            path = Path(self.translate_path(parsed.path))
            if path.exists() and path.is_file():
                try:
                    payload = self.augmented_model_settings(path).encode("utf-8")
                    self.send_response(200)
                    self.send_header("Content-Type", "application/json; charset=utf-8")
                    self.send_header("Content-Length", str(len(payload)))
                    self.end_headers()
                    self.wfile.write(payload)
                    return
                except Exception as error:
                    print(f"model settings augmentation failed: {error}", file=sys.stderr)
        super().do_GET()

    def augmented_model_settings(self, path):
        with path.open("r", encoding="utf-8") as file:
            settings = json.load(file)
        references = settings.setdefault("FileReferences", {})
        root = Path(os.getcwd())
        vtube = self.load_vtube_settings(root)
        hotkeys = vtube.get("Hotkeys", []) if isinstance(vtube, dict) else []

        if not references.get("Expressions"):
            expressions = self.expression_definitions(root, hotkeys)
            if expressions:
                references["Expressions"] = expressions

        if not references.get("Motions"):
            motions = self.motion_definitions(root, hotkeys)
            if motions:
                references["Motions"] = motions

        return json.dumps(settings, ensure_ascii=False, separators=(",", ":"))

    def load_vtube_settings(self, root):
        for vtube_file in sorted(root.glob("*.vtube.json"), key=lambda item: item.name.lower()):
            try:
                with vtube_file.open("r", encoding="utf-8") as file:
                    return json.load(file)
            except Exception:
                return {}
        return {}

    def relative_model_file(self, root, file_name, suffix):
        if not file_name or not file_name.endswith(suffix):
            return None
        direct = root / file_name
        if direct.exists() and direct.is_file():
            return direct.relative_to(root).as_posix()
        matches = sorted(root.rglob(file_name), key=lambda item: item.as_posix().lower())
        for match in matches:
            relative_path = match.relative_to(root)
            if not any(part.startswith(".") for part in relative_path.parts):
                return relative_path.as_posix()
        return None

    def expression_definitions(self, root, hotkeys):
        expressions = []
        seen = set()
        for hotkey in hotkeys:
            if hotkey.get("Action") != "ToggleExpression":
                continue
            relative = self.relative_model_file(root, hotkey.get("File", ""), ".exp3.json")
            if not relative or relative in seen:
                continue
            seen.add(relative)
            name = hotkey.get("Name") or Path(relative).name[:-len(".exp3.json")]
            expressions.append({"Name": name, "File": relative})

        for expression_file in sorted(root.rglob("*.exp3.json"), key=lambda item: item.as_posix().lower()):
            relative_path = expression_file.relative_to(root)
            if any(part.startswith(".") for part in relative_path.parts):
                continue
            relative = relative_path.as_posix()
            if relative in seen:
                continue
            seen.add(relative)
            expressions.append({
                "Name": expression_file.name[:-len(".exp3.json")],
                "File": relative,
            })
        return expressions

    def motion_definitions(self, root, hotkeys):
        motions = {}
        seen = set()
        for hotkey in hotkeys:
            if hotkey.get("Action") != "TriggerAnimation":
                continue
            relative = self.relative_model_file(root, hotkey.get("File", ""), ".motion3.json")
            if not relative or relative in seen:
                continue
            seen.add(relative)
            group = Path(relative).name[:-len(".motion3.json")]
            motions.setdefault(group, []).append({"File": relative})

        for motion_file in sorted(root.rglob("*.motion3.json"), key=lambda item: item.as_posix().lower()):
            relative_path = motion_file.relative_to(root)
            if any(part.startswith(".") for part in relative_path.parts):
                continue
            relative = relative_path.as_posix()
            if relative in seen:
                continue
            seen.add(relative)
            group = motion_file.name[:-len(".motion3.json")]
            motions.setdefault(group, []).append({"File": relative})
        return motions

socketserver.ThreadingTCPServer.allow_reuse_address = True
with socketserver.ThreadingTCPServer(("127.0.0.1", int(sys.argv[1])), Handler) as httpd:
    print(httpd.server_address[1], flush=True)
    httpd.serve_forever()
"#;

/// The script injected into the iCity window.
pub fn icity_compact_script() -> (script: String)
    ensures
        script@ == ICITY_COMPACT_SCRIPT@,
{
    string_of(&chars_of(ICITY_COMPACT_SCRIPT))
}

/// The program of the model file server.
pub fn cors_static_server_script() -> (script: &'static str)
    ensures
        script@ == CORS_STATIC_SERVER_SCRIPT@,
{
    CORS_STATIC_SERVER_SCRIPT
}

} // verus!

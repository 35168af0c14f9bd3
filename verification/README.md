# iced_webview

Web views for [iced](https://iced.rs) applications, with the decisions proved in Verus.

The library (`src/`) is pure: it turns events and state into the next state and a list of
things to do. What talks to a window, a GPU, a browser engine, the file system or another
process is ordinary Rust in `app/`, which performs what the library decides.

| module | what it decides |
|---|---|
| `native_lib_paths`, `path` | where a bundled native library or CEF distribution is looked for, on Unix systems |
| `util`, `data_url`, `text` | escaping, addresses, the page for a failed fetch |
| `input` | the events of the window |
| `webview::basic` | which view is current, and what an action makes the engine and the host be told |
| `webview::focus` | when the page has the keyboard |
| `webview::shader_widget` | what a widget drawn from a texture forwards, and what it uploads |
| `engines::cef_engine`, `cef_input`, `cef_dialog`, `paint` | the Chromium engine: views, input, navigation, file dialogs, damage |
| `engines::accelerated` | which GPU frames are taken, and when the texture they go to is a new one |
| `engines::blitz`, `engines::servo`, `engines::views` | the other engines |

Floating-point numbers (coordinates, scales) pass through the library as bit patterns; what is
computed with them is in `app/`.

Functions whose names start with `law_` state what holds across several calls. What is trusted
and not proved is marked `external_body` or `assume_specification`: calls of `url`,
`urlencoding`, `rand` and two functions of the standard library.

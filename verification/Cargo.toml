[package]
name = "webshooter"
version = "0.1.0"
edition = "2021"
publish = false

[dependencies]
data-encoding = "=2.11.1"
ecdsa = "=0.16.9"
p384 = "=0.13.1"
rand = "=0.10.3"
x509-parser = "=0.18.1"
serde = { version = "1", features = ["derive"] }
serde_json = "=1.0.154"
serde_yaml = "0.9"
toml = "=1.1.8"
anyhow = "1"
tokio = { version = "1", features = ["full"] }
tokio-util = "0.7"
futures-util = "0.3"
async-channel = "2"
poem = { version = "=3.1.12", features = ["rustls"] }
wtransport = "=0.7.2"
mime_guess = "2"
reqwest = { version = "0.12", default-features = false }
notify = "=8.2.1"
libc = "0.2"
log = { version = "0.4", features = ["std"] }
resvg = "=0.49.0"
ksni = "=0.3.7"
ashpd = { version = "=0.13.13", features = ["remote_desktop", "screencast"] }
reis = { version = "=0.7.1", features = ["tokio"] }
wasm-bindgen = "0.2"
wasm-bindgen-futures = "0.4"
js-sys = "0.3"
web-sys = { version = "0.3", features = ["Window", "Document", "Element", "HtmlElement", "HtmlCanvasElement", "HtmlVideoElement", "KeyboardEvent", "MouseEvent", "PointerEvent", "TouchEvent", "TouchList", "Touch", "WheelEvent", "Event", "EventTarget", "Navigator", "Gamepad", "GamepadButton", "Performance", "Location", "AddEventListenerOptions", "ReadableStreamDefaultReader", "ReadableStream", "WritableStream", "WritableStreamDefaultWriter", "WebTransport", "WebTransportDatagramDuplexStream", "console", "Response", "Headers", "HtmlDivElement", "CssStyleDeclaration", "DomRect", "Node", "CanvasRenderingContext2d", "ResizeObserver", "AudioContext", "AudioContextState", "AudioBuffer", "AudioBufferSourceNode", "AudioDestinationNode", "AudioNode", "BaseAudioContext", "AudioScheduledSourceNode"] }
serde-wasm-bindgen = "0.6"

[package]
name = "d_tweaks"
version = "0.1.0"
edition = "2021"
publish = false

[dependencies]
wasm-bindgen = "=0.2.130"
wasm-bindgen-futures = "=0.4.80"
js-sys = "=0.3.107"
web-sys = { version = "=0.3.107", features = ["console", "AbortController", "AbortSignal", "CanvasRenderingContext2d", "CssStyleDeclaration", "Document", "DocumentFragment", "DomParser", "DomRect", "DomRectReadOnly", "DomTokenList", "Element", "Event", "EventTarget", "Headers", "HtmlAnchorElement", "HtmlCanvasElement", "HtmlDialogElement", "HtmlElement", "HtmlIFrameElement", "HtmlInputElement", "HtmlMediaElement", "HtmlOptionElement", "HtmlSelectElement", "InputEvent", "IntersectionObserver", "IntersectionObserverEntry", "IntersectionObserverInit", "KeyboardEvent", "KeyboardEventInit", "Location", "MouseEvent", "MutationObserver", "MutationObserverInit", "MutationRecord", "Node", "NodeList", "Request", "RequestInit", "Response", "SupportedType", "TextMetrics", "TimeRanges", "UiEvent", "Url", "UrlSearchParams", "Window", "WorkerGlobalScope"] }

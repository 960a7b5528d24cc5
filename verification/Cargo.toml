[package]
name = "dsh_desktop"
version = "0.1.0"
edition = "2021"
publish = false

[dependencies]
block2 = "0.6"
libc = "0.2"
objc2 = "0.6"
objc2-app-kit = { version = "0.3", default-features = false, features = ["std", "block2", "NSEvent", "NSPasteboard", "NSPasteboardItem", "NSResponder"] }
objc2-foundation = { version = "0.3", default-features = false, features = ["std", "NSString", "NSURL", "NSURLRequest", "NSError", "NSArray"] }
objc2-web-kit = { version = "0.3", default-features = false, features = ["std", "block2", "WKWebView", "WKNavigation", "objc2-app-kit"] }
serde = { version = "1", features = ["derive"] }
serde_json = "1"

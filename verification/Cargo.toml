[package]
name = "ui-events-windows"
version = "0.1.0"
edition = "2021"
publish = false

[dependencies]
dpi = { version = "*", default-features = false }
ui-events = "*"

[dependencies.windows-sys]
version = "*"
features = [
    "Win32_Foundation",
    "Win32_Globalization",
    "Win32_Graphics_Gdi",
    "Win32_UI_Controls",
    "Win32_UI_Input_Ime",
    "Win32_UI_Input_KeyboardAndMouse",
    "Win32_UI_Input_Touch",
    "Win32_UI_WindowsAndMessaging",
]

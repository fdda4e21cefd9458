[package]
name = "window_warp"
version = "0.1.0"
edition = "2021"
publish = false

[dependencies]
anyhow = "1"
pollster = "0.4"

[dependencies.clap]
version = "4"
default-features = false
features = ["std", "derive", "help", "usage", "error-context"]

[dependencies.wgpu]
version = "29"
default-features = false
features = ["std", "wgsl", "vulkan", "metal"]

[dependencies.winit]
version = "0.29"
default-features = false
features = ["rwh_06", "x11"]

[dependencies.windows]
version = "0.62"
features = [
    "Win32_Foundation",
    "Win32_Graphics_Direct3D",
    "Win32_Graphics_Direct3D_Fxc",
    "Win32_Graphics_Direct3D11",
    "Win32_Graphics_Dxgi",
    "Win32_Graphics_Dxgi_Common",
    "Win32_Graphics_Gdi",
    "Win32_Media_MediaFoundation",
    "Win32_System_Com",
    "Win32_System_Com_StructuredStorage",
    "Win32_System_LibraryLoader",
    "Win32_System_Ole",
    "Win32_System_Variant",
    "Win32_UI_HiDpi",
    "Win32_UI_Input_KeyboardAndMouse",
    "Win32_UI_WindowsAndMessaging",
]

[package]
name = "netwatcher"
version = "0.4.0"
edition = "2021"
publish = false

[dependencies]
nix = { version = "0.29", features = ["net", "socket", "fs"] }
block2 = "0.5"
jni = "0.21"
ndk-context = "0.1"
windows = { version = "0.56", features = ["Win32_Foundation", "Win32_NetworkManagement_IpHelper", "Win32_NetworkManagement_Ndis", "Win32_Networking_WinSock"] }

//! Where the language server binary comes from, per platform.
use vstd::prelude::*;
use crate::text::{append_chars, chars_of, string_of};

verus! {

/// Operating systems the editor reports.
#[derive(PartialEq, Eq, Structural, Clone, Copy, Debug)]
pub enum Os {
    Mac,
    Linux,
    Windows,
}

/// Processor architectures the editor reports.
#[derive(PartialEq, Eq, Structural, Clone, Copy, Debug)]
pub enum Architecture {
    Aarch64,
    X86,
    X8664,
}

pub open spec fn binary_name_of(os: Os) -> Seq<char> {
    match os {
        Os::Windows => "python-autodoc-lsp.exe"@,
        _ => "python-autodoc-lsp"@,
    }
}

/// The Rust target triple of the release build for a platform, if one is published.
pub open spec fn target_triple_of(os: Os, arch: Architecture) -> Option<Seq<char>> {
    match (os, arch) {
        (Os::Mac, Architecture::Aarch64) => Some("aarch64-apple-darwin"@),
        (Os::Mac, Architecture::X8664) => Some("x86_64-apple-darwin"@),
        (Os::Linux, Architecture::Aarch64) => Some("aarch64-unknown-linux-gnu"@),
        (Os::Linux, Architecture::X8664) => Some("x86_64-unknown-linux-gnu"@),
        (Os::Linux, Architecture::X86) => Some("i686-unknown-linux-gnu"@),
        (Os::Windows, Architecture::Aarch64) => Some("aarch64-pc-windows-msvc"@),
        (Os::Windows, Architecture::X8664) => Some("x86_64-pc-windows-msvc"@),
        (Os::Windows, Architecture::X86) => Some("i686-pc-windows-msvc"@),
        _ => None,
    }
}

/// The name of the language server executable on `os`.
pub fn binary_name(os: Os) -> (r: &'static str)
    ensures
        r@ == binary_name_of(os),
{
    match os {
        Os::Windows => "python-autodoc-lsp.exe",
        _ => "python-autodoc-lsp",
    }
}

/// The target triple of the published build for a platform; `None` for the
/// one combination without a build (32-bit x86 on macOS).
pub fn target_triple(os: Os, arch: Architecture) -> (r: Option<&'static str>)
    ensures
        match r {
            Some(t) => target_triple_of(os, arch) == Some(t@),
            None => target_triple_of(os, arch) is None,
        },
{
    match (os, arch) {
        (Os::Mac, Architecture::Aarch64) => Some("aarch64-apple-darwin"),
        (Os::Mac, Architecture::X8664) => Some("x86_64-apple-darwin"),
        (Os::Linux, Architecture::Aarch64) => Some("aarch64-unknown-linux-gnu"),
        (Os::Linux, Architecture::X8664) => Some("x86_64-unknown-linux-gnu"),
        (Os::Linux, Architecture::X86) => Some("i686-unknown-linux-gnu"),
        (Os::Windows, Architecture::Aarch64) => Some("aarch64-pc-windows-msvc"),
        (Os::Windows, Architecture::X8664) => Some("x86_64-pc-windows-msvc"),
        (Os::Windows, Architecture::X86) => Some("i686-pc-windows-msvc"),
        _ => None,
    }
}

/// The error reported on a platform without a published build.
pub fn unsupported_platform_message() -> (r: String)
    ensures
        r@ == "python-autodoc-lsp does not support this platform"@,
{
    String::from_str("python-autodoc-lsp does not support this platform")
}

/// `a` followed by `b` and `c`, as a `String`.
fn concat3(a: &str, b: &str, c: &str) -> (r: String)
    ensures
        r@ == a@ + b@ + c@,
{
    let mut v = chars_of(a);
    let y = chars_of(b);
    let z = chars_of(c);
    append_chars(&mut v, y.as_slice());
    append_chars(&mut v, z.as_slice());
    string_of(v.as_slice())
}

/// The release asset holding the build for `target_triple`.
pub fn release_asset_name(target_triple: &str) -> (r: String)
    ensures
        r@ == "python-autodoc-lsp-"@ + target_triple@ + ".tar.gz"@,
{
    concat3("python-autodoc-lsp-", target_triple, ".tar.gz")
}

/// Where the release asset of `version` is downloaded from.
pub fn release_url(version: &str, asset: &str) -> (r: String)
    ensures
        r@ == "https://github.com/eallender/zed-python-autodoc/releases/download/v"@ + version@
            + "/"@ + asset@,
{
    let mut v = chars_of("https://github.com/eallender/zed-python-autodoc/releases/download/v");
    push_str(&mut v, version);
    push_str(&mut v, "/");
    push_str(&mut v, asset);
    string_of(v.as_slice())
}

/// Where the downloaded archive's executable lands: the archive is unpacked
/// into a directory named after the executable.
pub fn extracted_binary_path(binary_name: &str) -> (r: String)
    ensures
        r@ == binary_name@ + "/"@ + binary_name@,
{
    concat3(binary_name, "/", binary_name)
}

/// The error reported when the binary can neither be downloaded nor found on the PATH.
pub fn missing_binary_message(download_err: &str, target_triple: &str) -> (r: String)
    ensures
        r@ == "python-autodoc-lsp binary not found. Download from GitHub Releases failed ("@
            + download_err@ + "). Build it with `cargo build --release --target "@ + target_triple@
            + "` from the crates/lsp-server directory, or add python-autodoc-lsp to your PATH."@,
{
    let mut v = chars_of(
        "python-autodoc-lsp binary not found. Download from GitHub Releases failed (",
    );
    push_str(&mut v, download_err);
    push_str(&mut v, "). Build it with `cargo build --release --target ");
    push_str(&mut v, target_triple);
    push_str(
        &mut v,
        "` from the crates/lsp-server directory, or add python-autodoc-lsp to your PATH.",
    );
    string_of(v.as_slice())
}

/// The binary to run once the download has failed with `download_err`: the
/// one found on the PATH, if any; otherwise the error that explains how to
/// get one.
pub fn binary_after_failed_download(
    path_binary: Option<String>,
    download_err: &str,
    target_triple: &str,
) -> (r: Result<String, String>)
    ensures
        match path_binary {
            Some(p) => r matches Ok(q) && q@ == p@,
            None => r matches Err(e) && e@ == "python-autodoc-lsp binary not found. Download from GitHub Releases failed ("@
                + download_err@ + "). Build it with `cargo build --release --target "@
                + target_triple@
                + "` from the crates/lsp-server directory, or add python-autodoc-lsp to your PATH."@,
        },
{
    match path_binary {
        Some(p) => Ok(p),
        None => Err(missing_binary_message(download_err, target_triple)),
    }
}

fn push_str(v: &mut Vec<char>, s: &str)
    ensures
        final(v)@ == old(v)@ + s@,
{
    let c = chars_of(s);
    append_chars(v, c.as_slice());
}

} // verus!

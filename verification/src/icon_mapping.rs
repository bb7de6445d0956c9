//! Nerd Font glyphs and the default icon tables.

use vstd::prelude::*;

verus! {

/// Folder (nf-custom-folder); also the canary glyph of font detection.
pub const NF_CUSTOM_FOLDER: char = '\u{E5FF}';
/// Generic file (nf-fa-file).
pub const NF_FA_FILE: char = '\u{F15B}';
/// External link (nf-fa-external_link), used for junctions.
pub const NF_FA_EXTERNAL_LINK: char = '\u{F08E}';
/// Symbolic-link directory (nf-cod-file_symlink_directory).
pub const NF_COD_FILE_SYMLINK_DIR: char = '\u{EAED}';
/// Cloud with check mark (nf-md-cloud_check).
pub const NF_MD_CLOUD_CHECK: char = '\u{F0160}';
/// Cloud outline (nf-md-cloud_outline).
pub const NF_MD_CLOUD_OUTLINE: char = '\u{F0163}';
/// Pin (nf-md-pin).
pub const NF_MD_PIN: char = '\u{F0403}';
/// Git (nf-seti-git).
pub const NF_SETI_GIT: char = '\u{E65D}';
/// Rust (nf-dev-rust).
pub const NF_DEV_RUST: char = '\u{E7A8}';
/// C (nf-custom-c).
pub const NF_CUSTOM_C: char = '\u{E61E}';
/// C++ (nf-custom-cpp).
pub const NF_CUSTOM_CPP: char = '\u{E61D}';
/// Python (nf-seti-python).
pub const NF_SETI_PYTHON: char = '\u{E606}';
/// JavaScript (nf-seti-javascript).
pub const NF_SETI_JAVASCRIPT: char = '\u{E60C}';
/// TypeScript (nf-seti-typescript).
pub const NF_SETI_TYPESCRIPT: char = '\u{E628}';
/// JSON (nf-seti-json).
pub const NF_SETI_JSON: char = '\u{E60B}';
/// Markdown (nf-dev-markdown).
pub const NF_DEV_MARKDOWN: char = '\u{E73E}';
/// Text file (nf-fa-file_text).
pub const NF_FA_FILE_TEXT: char = '\u{F15C}';
/// Archive (nf-fa-file_zip_o).
pub const NF_FA_FILE_ARCHIVE: char = '\u{F1C6}';
/// Image (nf-fa-file_image_o).
pub const NF_FA_FILE_IMAGE: char = '\u{F1C5}';
/// PDF (nf-fa-file_pdf_o).
pub const NF_FA_FILE_PDF: char = '\u{F1C1}';
/// Executable / application (nf-md-application).
pub const NF_MD_APPLICATION: char = '\u{F08C6}';
/// Shell script (nf-dev-terminal).
pub const NF_DEV_TERMINAL: char = '\u{E795}';
/// Settings file (nf-seti-config).
pub const NF_SETI_CONFIG: char = '\u{E615}';
/// HTML (nf-seti-html).
pub const NF_SETI_HTML: char = '\u{E60E}';
/// CSS (nf-seti-css).
pub const NF_SETI_CSS: char = '\u{E614}';
/// C# (nf-md-language_csharp).
pub const NF_MD_LANGUAGE_CSHARP: char = '\u{F031B}';
/// Java (nf-dev-java).
pub const NF_DEV_JAVA: char = '\u{E738}';
/// Go (nf-seti-go).
pub const NF_SETI_GO: char = '\u{E627}';
/// PowerShell (nf-md-powershell).
pub const NF_MD_POWERSHELL: char = '\u{F0A0A}';
/// Visual Studio (nf-dev-visualstudio).
pub const NF_DEV_VISUALSTUDIO: char = '\u{E70C}';
/// GitHub (nf-fa-github).
pub const NF_FA_GITHUB: char = '\u{F09B}';
/// VS Code (nf-dev-vscode).
pub const NF_DEV_VSCODE: char = '\u{E8DA}';
/// Node.js (nf-dev-nodejs_small).
pub const NF_DEV_NODEJS: char = '\u{E718}';
/// Build output (nf-cod-output).
pub const NF_COD_OUTPUT: char = '\u{EB9D}';
/// Documents folder (nf-md-folder_file).
pub const NF_MD_FOLDER_FILE: char = '\u{F0256}';
/// Downloads folder (nf-md-folder_download).
pub const NF_MD_FOLDER_DOWNLOAD: char = '\u{F024D}';
/// Source folder (nf-md-folder_star... nf-cod-code).
pub const NF_COD_CODE: char = '\u{EAC4}';
/// Test folder (nf-md-test_tube).
pub const NF_MD_TEST_TUBE: char = '\u{F0668}';

/// Default icons by file extension (keys with a leading dot).
pub const DEFAULT_EXTENSION_ICONS: [(&'static str, char); 40] = [
    (".c", NF_CUSTOM_C),
    (".h", NF_CUSTOM_C),
    (".cpp", NF_CUSTOM_CPP),
    (".cxx", NF_CUSTOM_CPP),
    (".hpp", NF_CUSTOM_CPP),
    (".rs", NF_DEV_RUST),
    (".py", NF_SETI_PYTHON),
    (".pyw", NF_SETI_PYTHON),
    (".js", NF_SETI_JAVASCRIPT),
    (".mjs", NF_SETI_JAVASCRIPT),
    (".ts", NF_SETI_TYPESCRIPT),
    (".tsx", NF_SETI_TYPESCRIPT),
    (".json", NF_SETI_JSON),
    (".md", NF_DEV_MARKDOWN),
    (".markdown", NF_DEV_MARKDOWN),
    (".txt", NF_FA_FILE_TEXT),
    (".log", NF_FA_FILE_TEXT),
    (".zip", NF_FA_FILE_ARCHIVE),
    (".7z", NF_FA_FILE_ARCHIVE),
    (".gz", NF_FA_FILE_ARCHIVE),
    (".tar", NF_FA_FILE_ARCHIVE),
    (".png", NF_FA_FILE_IMAGE),
    (".jpg", NF_FA_FILE_IMAGE),
    (".jpeg", NF_FA_FILE_IMAGE),
    (".gif", NF_FA_FILE_IMAGE),
    (".pdf", NF_FA_FILE_PDF),
    (".exe", NF_MD_APPLICATION),
    (".dll", NF_MD_APPLICATION),
    (".sh", NF_DEV_TERMINAL),
    (".bat", NF_DEV_TERMINAL),
    (".cmd", NF_DEV_TERMINAL),
    (".ps1", NF_MD_POWERSHELL),
    (".toml", NF_SETI_CONFIG),
    (".ini", NF_SETI_CONFIG),
    (".yml", NF_SETI_CONFIG),
    (".html", NF_SETI_HTML),
    (".css", NF_SETI_CSS),
    (".cs", NF_MD_LANGUAGE_CSHARP),
    (".java", NF_DEV_JAVA),
    (".go", NF_SETI_GO),
];

/// Default icons for well-known directory names (lowercase keys).
pub const DEFAULT_WELL_KNOWN_DIR_ICONS: [(&'static str, char); 12] = [
    (".git", NF_SETI_GIT),
    (".github", NF_FA_GITHUB),
    (".vs", NF_DEV_VISUALSTUDIO),
    (".vscode", NF_DEV_VSCODE),
    ("node_modules", NF_DEV_NODEJS),
    ("bin", NF_COD_OUTPUT),
    ("obj", NF_COD_OUTPUT),
    ("target", NF_COD_OUTPUT),
    ("documents", NF_MD_FOLDER_FILE),
    ("downloads", NF_MD_FOLDER_DOWNLOAD),
    ("src", NF_COD_CODE),
    ("test", NF_MD_TEST_TUBE),
];

} // verus!

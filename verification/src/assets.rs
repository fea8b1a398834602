//! The texts of the files that a Rust project receives by default, and of the
//! licenses a template can ask for. They are rendered like any template, so
//! they may hold placeholders.
use vstd::prelude::*;

verus! {

/// The default `src/main.rs`.
pub const DEFAULT_MAIN_RS: &'static str = "fn main() {\n    println!(\"Hello from {{ project_name }}!\");\n}\n";

/// The default `README.md`.
pub const DEFAULT_README: &'static str = "# {{ project_name }}\n\nA Rust project created from the `{{ template_name }}` template.\n\n## Usage\n\n```bash\ncargo run\n```\n";

/// The default `.gitignore` of a Rust project.
pub const RUST_GITIGNORE: &'static str = "/target\n";

/// The default integration test, `tests/cli.rs`.
pub const DEFAULT_CLI_TEST: &'static str = "#[test]\nfn project_builds() {\n    assert_eq!(2 + 2, 4);\n}\n";

/// The MIT license.
pub const MIT_LICENSE: &'static str = "MIT License\n\nCopyright (c) the {{ project_name }} authors\n\nPermission is hereby granted, free of charge, to any person obtaining a copy\nof this software and associated documentation files (the \"Software\"), to deal\nin the Software without restriction, including without limitation the rights\nto use, copy, modify, merge, publish, distribute, sublicense, and/or sell\ncopies of the Software, and to permit persons to whom the Software is\nfurnished to do so, subject to the following conditions:\n\nThe above copyright notice and this permission notice shall be included in all\ncopies or substantial portions of the Software.\n\nTHE SOFTWARE IS PROVIDED \"AS IS\", WITHOUT WARRANTY OF ANY KIND, EXPRESS OR\nIMPLIED, INCLUDING BUT NOT LIMITED TO THE WARRANTIES OF MERCHANTABILITY,\nFITNESS FOR A PARTICULAR PURPOSE AND NONINFRINGEMENT. IN NO EVENT SHALL THE\nAUTHORS OR COPYRIGHT HOLDERS BE LIABLE FOR ANY CLAIM, DAMAGES OR OTHER\nLIABILITY, WHETHER IN AN ACTION OF CONTRACT, TORT OR OTHERWISE, ARISING FROM,\nOUT OF OR IN CONNECTION WITH THE SOFTWARE OR THE USE OR OTHER DEALINGS IN THE\nSOFTWARE.\n";

/// The Apache License 2.0 notice.
pub const APACHE_LICENSE: &'static str = "Copyright the {{ project_name }} authors\n\nLicensed under the Apache License, Version 2.0 (the \"License\");\nyou may not use this file except in compliance with the License.\nYou may obtain a copy of the License at\n\n    http://www.apache.org/licenses/LICENSE-2.0\n\nUnless required by applicable law or agreed to in writing, software\ndistributed under the License is distributed on an \"AS IS\" BASIS,\nWITHOUT WARRANTIES OR CONDITIONS OF ANY KIND, either express or implied.\nSee the License for the specific language governing permissions and\nlimitations under the License.\n";

} // verus!

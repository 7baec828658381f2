use std::path::Path;

use marie_c_compiler::paths::default_output_path;

/// Verifies default output path uses the `.mas` extension.
#[test]
fn default_output_extension_is_mas() {
    let output = default_output_path("examples/hello.i");
    assert_eq!(Path::new(&output), Path::new("examples/hello.mas"));
}

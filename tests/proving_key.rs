use leo_synthesizer::ProvingKeyFile;

#[test]
fn new_keeps_the_package_name() {
    assert_eq!(ProvingKeyFile::new("hello").package_name, "hello");
}

#[test]
fn directory_gets_outputs_and_file_name() {
    let f = ProvingKeyFile::new("hello");
    assert_eq!(f.full_path("pkg", true), "pkg/outputs/hello.lpk");
    assert_eq!(f.full_path("pkg/", true), "pkg/outputs/hello.lpk");
}

#[test]
fn outputs_directory_is_not_doubled() {
    let f = ProvingKeyFile::new("hello");
    assert_eq!(f.full_path("pkg/outputs", true), "pkg/outputs/hello.lpk");
    assert_eq!(f.full_path("pkg/outputs/", true), "pkg/outputs/hello.lpk");
    assert_eq!(f.full_path("pkg/myoutputs", true), "pkg/myoutputs/outputs/hello.lpk");
}

#[test]
fn file_path_is_kept() {
    let f = ProvingKeyFile::new("hello");
    assert_eq!(f.full_path("keys/custom.lpk", false), "keys/custom.lpk");
}

#[test]
fn outputs_is_found_past_empty_and_dot_components() {
    let f = ProvingKeyFile::new("hello");
    assert_eq!(f.full_path("pkg/outputs//", true), "pkg/outputs//hello.lpk");
    assert_eq!(f.full_path("pkg/outputs/.", true), "pkg/outputs/./hello.lpk");
    assert_eq!(f.full_path("outputs", true), "outputs/hello.lpk");
    assert_eq!(f.full_path(".", true), "./outputs/hello.lpk");
}

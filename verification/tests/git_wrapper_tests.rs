use cargo_vendormod::git_wrapper::{branches_outcome, clone_outcome, tags_outcome, GitOutput, GitWrapper};

#[test]
fn test_git_wrapper_new() {
    let wrapper = GitWrapper::new("git".to_string());
    assert_eq!(wrapper.git_exe, "git".to_string());
}

#[test]
fn test_git_wrapper_with_path() {
    let wrapper = GitWrapper::new("/usr/bin/git".to_string());
    assert_eq!(wrapper.git_exe, "/usr/bin/git".to_string());
}

#[test]
fn test_git_exe_getter() {
    let wrapper = GitWrapper::new("/custom/path/git".to_string());
    assert_eq!(wrapper.git_exe(), &"/custom/path/git".to_string());
}

#[test]
fn commands_name_the_repository() {
    let w = GitWrapper::new("git".to_string());
    let c = w.checkout("/r", "main");
    assert_eq!(c.program, "git");
    assert_eq!(c.args, vec!["-C", "/r", "checkout", "main"]);
    let b = w.branch_exists("/r", "dev");
    assert_eq!(b.args, vec!["-C", "/r", "show-ref", "--verify", "refs/heads/dev"]);
    assert_eq!(w.clone("u", "/t").args, vec!["clone", "u", "/t"]);
}

#[test]
fn branch_listing_is_read_line_by_line() {
    let out = GitOutput { success: true, stdout: "* main\n  dev\n".to_string(), stderr: String::new() };
    assert_eq!(branches_outcome(&out).unwrap(), vec!["main".to_string(), "dev".to_string()]);
    let tags = GitOutput { success: true, stdout: " v1 \nv2\n".to_string(), stderr: String::new() };
    assert_eq!(tags_outcome(&tags).unwrap(), vec!["v1".to_string(), "v2".to_string()]);
}

#[test]
fn failures_carry_the_error_output() {
    let out = GitOutput { success: false, stdout: String::new(), stderr: "fatal".to_string() };
    assert_eq!(clone_outcome(&out), Err("Git clone failed: fatal".to_string()));
    assert_eq!(branches_outcome(&out), Err("Git branch list failed: fatal".to_string()));
}

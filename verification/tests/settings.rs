use sift::config::config_path;
use sift::editor::{
    detect_editor, editor_message, is_executable, needs_sudo, open, which, EditorOutcome,
};

fn opt(s: &str) -> Option<String> {
    Some(s.to_string())
}

#[test]
fn settings_are_below_home() {
    assert_eq!(
        config_path(&opt("/home/heng")),
        opt("/home/heng/.config/sift/config.toml")
    );
    assert_eq!(config_path(&opt("")), None);
    assert_eq!(config_path(&None), None);
}

#[test]
fn editors_are_found_in_order() {
    let none = vec![false; 5];
    assert_eq!(detect_editor(&opt(" code --wait "), &opt("vi"), &none), opt("code --wait"));
    assert_eq!(detect_editor(&opt("  "), &opt("vi"), &none), opt("vi"));
    assert_eq!(detect_editor(&None, &None, &vec![false, true, true, false, true]), opt("vim"));
    assert_eq!(detect_editor(&None, &None, &none), None);
    assert_eq!(which("/bin:/usr/bin", "vi"), ["/bin/vi", "/usr/bin/vi"]);
    assert!(is_executable(0o100755));
    assert!(is_executable(0o100001));
    assert!(!is_executable(0o100644));
}

#[test]
fn editors_are_run_as_needed() {
    assert!(!needs_sudo(true, true));
    assert!(needs_sudo(true, false));
    assert!(needs_sudo(false, true));
    let cmd = open("code  --wait", "/a b", false);
    assert_eq!(cmd.program, "code");
    assert_eq!(cmd.args, ["--wait", "/a b"]);
    let cmd = open("vi", "/a", true);
    assert_eq!(cmd.program, "sudo");
    assert_eq!(cmd.args, ["vi", "/a"]);
    assert_eq!(open(" ", "/a", false).program, " ");
}

#[test]
fn editors_report() {
    assert_eq!(editor_message("vi", &EditorOutcome::Success), "已关闭编辑器（vi）");
    assert_eq!(editor_message("vi", &EditorOutcome::Code(-1)), "编辑器退出码: -1");
    assert_eq!(
        editor_message("vi", &EditorOutcome::Failed("x".to_string())),
        "打开失败: x"
    );
}

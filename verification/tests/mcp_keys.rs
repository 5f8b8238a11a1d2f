use crux::mcp::keys::{translate_keys, validate_command};

#[test]
fn common_test_translate_keys_enter() {
    assert_eq!(translate_keys("enter"), "\n");
    assert_eq!(translate_keys("return"), "\n");
    assert_eq!(translate_keys("ENTER"), "\n");
}

#[test]
fn common_test_translate_keys_tab() {
    assert_eq!(translate_keys("tab"), "\t");
}

#[test]
fn common_test_translate_keys_escape() {
    assert_eq!(translate_keys("escape"), "\x1b");
    assert_eq!(translate_keys("esc"), "\x1b");
}

#[test]
fn common_test_translate_keys_ctrl_sequences() {
    assert_eq!(translate_keys("ctrl-c"), "\x03");
    assert_eq!(translate_keys("ctrl-d"), "\x04");
    assert_eq!(translate_keys("ctrl-z"), "\x1a");
    assert_eq!(translate_keys("ctrl-a"), "\x01");
    assert_eq!(translate_keys("ctrl-e"), "\x05");
}

#[test]
fn common_test_translate_keys_arrows() {
    assert_eq!(translate_keys("up"), "\x1b[A");
    assert_eq!(translate_keys("down"), "\x1b[B");
    assert_eq!(translate_keys("right"), "\x1b[C");
    assert_eq!(translate_keys("left"), "\x1b[D");
}

#[test]
fn common_test_translate_keys_home_end() {
    assert_eq!(translate_keys("home"), "\x1b[H");
    assert_eq!(translate_keys("end"), "\x1b[F");
}

#[test]
fn common_test_translate_keys_backspace_delete() {
    assert_eq!(translate_keys("backspace"), "\x7f");
    assert_eq!(translate_keys("delete"), "\x1b[3~");
}

#[test]
fn common_test_translate_keys_page_up_down() {
    assert_eq!(translate_keys("page-up"), "\x1b[5~");
    assert_eq!(translate_keys("page-down"), "\x1b[6~");
}

#[test]
fn common_test_translate_keys_unknown() {
    assert_eq!(translate_keys("x"), "x");
    assert_eq!(translate_keys("unknown-key"), "unknown-key");
}

#[test]
fn common_test_validate_command_rm_rf_slash() {
    assert!(validate_command("rm -rf /").is_err());
    assert!(validate_command("rm -rf /*").is_err());
    assert!(validate_command("rm -rf ~").is_err());
    assert!(validate_command("sudo rm -rf /").is_err());
}

#[test]
fn common_test_validate_command_mkfs() {
    assert!(validate_command("mkfs /dev/sda1").is_err());
    assert!(validate_command("sudo mkfs.ext4 /dev/sdb").is_err());
    assert!(validate_command("MKFS /dev/sda").is_err());
}

#[test]
fn common_test_validate_command_dd() {
    assert!(validate_command("dd if=/dev/zero of=/dev/sda").is_err());
    assert!(validate_command("DD IF=/dev/urandom of=/dev/sdb").is_err());
}

#[test]
fn common_test_validate_command_fork_bomb() {
    assert!(validate_command(":(){ :|:& };:").is_err());
    assert!(validate_command(":(){ :|:& };: &").is_err());
}

#[test]
fn common_test_validate_command_direct_disk_write() {
    assert!(validate_command("echo test > /dev/sda").is_err());
    assert!(validate_command("cat file > /dev/sdb").is_err());
    assert!(validate_command("> /dev/sdc").is_err());
}

#[test]
fn common_test_validate_command_chmod_root() {
    assert!(validate_command("chmod -R 777 /").is_err());
    assert!(validate_command("chmod -rf 777 /").is_err());
    assert!(validate_command("chmod 777 /").is_err());
    assert!(validate_command("CHMOD -R 777 /").is_err());
}

#[test]
fn common_test_validate_command_safe_commands() {
    assert!(validate_command("ls -la").is_ok());
    assert!(validate_command("echo hello world").is_ok());
    assert!(validate_command("cargo build").is_ok());
    assert!(validate_command("git status").is_ok());
    assert!(validate_command("cd /home/user").is_ok());
    assert!(validate_command("cat file.txt").is_ok());
    assert!(validate_command("mkdir -p /tmp/mydir").is_ok());
    assert!(validate_command("chmod 755 script.sh").is_ok());
    assert!(validate_command("rm -rf ./build").is_ok());
    assert!(validate_command("dd if=input.img of=output.img").is_ok());
}

#[test]
fn common_test_validate_command_case_insensitive() {
    assert!(validate_command("RM -RF /").is_err());
    assert!(validate_command("Rm -Rf /").is_err());
    assert!(validate_command("rM -rF /").is_err());
}

#[test]
fn command_test_translate_keys_enter() {
    assert_eq!(translate_keys("enter"), "\n");
    assert_eq!(translate_keys("return"), "\n");
    assert_eq!(translate_keys("ENTER"), "\n");
}

#[test]
fn command_test_translate_keys_tab() {
    assert_eq!(translate_keys("tab"), "\t");
}

#[test]
fn command_test_translate_keys_escape() {
    assert_eq!(translate_keys("escape"), "\x1b");
    assert_eq!(translate_keys("esc"), "\x1b");
}

#[test]
fn command_test_translate_keys_ctrl_sequences() {
    assert_eq!(translate_keys("ctrl-c"), "\x03");
    assert_eq!(translate_keys("ctrl-d"), "\x04");
    assert_eq!(translate_keys("ctrl-z"), "\x1a");
    assert_eq!(translate_keys("ctrl-a"), "\x01");
    assert_eq!(translate_keys("ctrl-e"), "\x05");
}

#[test]
fn command_test_translate_keys_arrows() {
    assert_eq!(translate_keys("up"), "\x1b[A");
    assert_eq!(translate_keys("down"), "\x1b[B");
    assert_eq!(translate_keys("right"), "\x1b[C");
    assert_eq!(translate_keys("left"), "\x1b[D");
}

#[test]
fn command_test_translate_keys_home_end() {
    assert_eq!(translate_keys("home"), "\x1b[H");
    assert_eq!(translate_keys("end"), "\x1b[F");
}

#[test]
fn command_test_translate_keys_backspace_delete() {
    assert_eq!(translate_keys("backspace"), "\x7f");
    assert_eq!(translate_keys("delete"), "\x1b[3~");
}

#[test]
fn command_test_translate_keys_page_up_down() {
    assert_eq!(translate_keys("page-up"), "\x1b[5~");
    assert_eq!(translate_keys("page-down"), "\x1b[6~");
}

#[test]
fn command_test_translate_keys_unknown() {
    assert_eq!(translate_keys("x"), "x");
    assert_eq!(translate_keys("unknown-key"), "unknown-key");
}

#[test]
fn command_test_validate_command_rm_rf_slash() {
    assert!(validate_command("rm -rf /").is_err());
    assert!(validate_command("rm -rf /*").is_err());
    assert!(validate_command("rm -rf ~").is_err());
    assert!(validate_command("sudo rm -rf /").is_err());
}

#[test]
fn command_test_validate_command_mkfs() {
    assert!(validate_command("mkfs /dev/sda1").is_err());
    assert!(validate_command("sudo mkfs.ext4 /dev/sdb").is_err());
    assert!(validate_command("MKFS /dev/sda").is_err());
}

#[test]
fn command_test_validate_command_dd() {
    assert!(validate_command("dd if=/dev/zero of=/dev/sda").is_err());
    assert!(validate_command("DD IF=/dev/urandom of=/dev/sdb").is_err());
}

#[test]
fn command_test_validate_command_fork_bomb() {
    assert!(validate_command(":(){ :|:& };:").is_err());
    assert!(validate_command(":(){ :|:& };: &").is_err());
}

#[test]
fn command_test_validate_command_direct_disk_write() {
    assert!(validate_command("echo test > /dev/sda").is_err());
    assert!(validate_command("cat file > /dev/sdb").is_err());
    assert!(validate_command("> /dev/sdc").is_err());
}

#[test]
fn command_test_validate_command_chmod_root() {
    assert!(validate_command("chmod -R 777 /").is_err());
    assert!(validate_command("chmod -rf 777 /").is_err());
    assert!(validate_command("chmod 777 /").is_err());
    assert!(validate_command("CHMOD -R 777 /").is_err());
}

#[test]
fn command_test_validate_command_safe_commands() {
    assert!(validate_command("ls -la").is_ok());
    assert!(validate_command("echo hello world").is_ok());
    assert!(validate_command("cargo build").is_ok());
    assert!(validate_command("git status").is_ok());
    assert!(validate_command("cd /home/user").is_ok());
    assert!(validate_command("cat file.txt").is_ok());
    assert!(validate_command("mkdir -p /tmp/mydir").is_ok());
    assert!(validate_command("chmod 755 script.sh").is_ok());
    assert!(validate_command("rm -rf ./build").is_ok());
    assert!(validate_command("dd if=input.img of=output.img").is_ok());
}

#[test]
fn command_test_validate_command_case_insensitive() {
    assert!(validate_command("RM -RF /").is_err());
    assert!(validate_command("Rm -Rf /").is_err());
    assert!(validate_command("rM -rF /").is_err());
}

#[test]
fn rejection_message_names_the_first_pattern() {
    assert_eq!(
        validate_command("sudo RM -RF /").unwrap_err(),
        "Command rejected: contains dangerous pattern 'rm -rf /'. This command could cause system damage."
    );
    assert_eq!(
        validate_command("mkfs.ext4 x; dd if=/dev/zero").unwrap_err(),
        "Command rejected: contains dangerous pattern 'mkfs'. This command could cause system damage."
    );
}

#[test]
fn every_denylist_pattern_is_refused() {
    for p in [
        "rm -rf /", "rm -rf /*", "rm -rf ~", "mkfs", "dd if=/dev/", "dd if= /dev/", ":(){ :|:& };:",
        "> /dev/sd", "chmod -r 777 /", "chmod -rf 777 /", "chmod 777 /",
    ] {
        assert!(validate_command(p).is_err(), "{p}");
        assert!(validate_command(&p.to_uppercase()).is_err(), "{p}");
    }
}

#[test]
fn translate_keys_lowercases_unknown_names() {
    assert_eq!(translate_keys("PageUp"), "pageup");
    assert_eq!(translate_keys("Ctrl-W"), "\x17");
    assert_eq!(translate_keys("Ctrl-L"), "\x0c");
    assert_eq!(translate_keys("CTRL-U"), "\x15");
    assert_eq!(translate_keys("ctrl-k"), "\x0b");
}

#[test]
fn capitals_fold_for_keys_and_denylist() {
    assert_eq!(translate_keys("ENTER"), "\n");
    assert_eq!(translate_keys("Page-Down"), "\x1b[6~");
    assert_eq!(translate_keys("X"), "x");
    assert_eq!(translate_keys("ENTER"), translate_keys(&"ENTER".to_lowercase()));
    assert!(validate_command("RM -RF /").is_err());
    assert!(validate_command("MkFs.ext4 /dev/sda").is_err());
    assert!(validate_command("LS -LA").is_ok());
}

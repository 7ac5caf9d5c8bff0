use zterm_terminal::shell_integration::{get_integration_script, get_shell_args_with_integration, integration_script_file_name, supports_integration, POWERSHELL_INTEGRATION};
#[test]
fn test_powershell_integration_script_not_empty() {
    assert!(!POWERSHELL_INTEGRATION.is_empty());
    assert!(POWERSHELL_INTEGRATION.contains("133;"));
    assert!(POWERSHELL_INTEGRATION.contains("__zterm_osc"));
}

#[test]
fn test_get_integration_script_powershell() {
    assert!(get_integration_script("pwsh").is_some());
    assert!(get_integration_script("powershell").is_some());
    assert!(get_integration_script("pwsh.exe").is_some());
    assert!(get_integration_script("PowerShell.exe").is_some());
}

#[test]
fn test_get_integration_script_unsupported() {
    assert!(get_integration_script("bash").is_none());
    assert!(get_integration_script("zsh").is_none());
    assert!(get_integration_script("cmd").is_none());
}

#[test]
fn test_supports_integration() {
    assert!(supports_integration("pwsh"));
    assert!(supports_integration("powershell"));
    assert!(!supports_integration("bash"));
    assert!(!supports_integration("cmd"));
}

#[test]
fn test_integration_script_with_path() {
    assert!(get_integration_script("C:\\Windows\\System32\\WindowsPowerShell\\v1.0\\powershell.exe").is_some());
    assert!(get_integration_script("/usr/bin/pwsh").is_some());
}

#[test]
fn test_get_shell_args_with_integration() {
    // Test PowerShell
    let args = get_shell_args_with_integration("pwsh", "/tmp/zterm_shell_integration/pwsh.ps1");
    assert!(args.is_some());
    let args = args.unwrap();
    assert_eq!(args[0], "-NoLogo");
    assert_eq!(args[1], "-NoExit");
    assert_eq!(args[2], "-Command");
    assert!(args[3].contains("try"));
    assert!(args[3].contains("catch"));

    // Test unsupported shell
    assert!(get_shell_args_with_integration("bash", "/tmp/zterm_shell_integration/bash.ps1").is_none());
}

#[test]
fn inject_script_file_name_and_command() {
    assert_eq!(integration_script_file_name("/usr/bin/PWSH").as_deref(), Some("pwsh.ps1"));
    assert_eq!(integration_script_file_name("C:\\Tools\\PowerShell.EXE").as_deref(), Some("powershell.exe.ps1"));
    assert!(integration_script_file_name("bash").is_none());
    let args = get_shell_args_with_integration("pwsh/", "/t/p.ps1").unwrap();
    assert_eq!(args[3], "try { . '/t/p.ps1' } catch {}");
    assert!(get_integration_script("..").is_none());
    assert!(get_integration_script("/bin/sh/../pwsh").is_some());
}

#[test]
fn shell_path_ending_in_dot_component_names_the_shell() {
    assert!(get_integration_script("pwsh/.").is_some());
    assert!(get_integration_script("pwsh/./").is_some());
    assert!(get_integration_script("/usr/bin/pwsh/./.").is_some());
    assert!(get_integration_script("bash/.").is_none());
    assert!(get_integration_script(".").is_none());
}

use usb_vault::tui::{centered_overlay, App, AppState, Command, Focus, Key, Status};

fn type_text(app: &mut App, s: &str) {
    for c in s.chars() {
        assert_eq!(app.handle_key(Key::Char(c)), Command::Nothing);
    }
}

#[test]
fn app_starts_on_menu() {
    let app = App::new();
    assert_eq!(app.state, AppState::MainMenu);
    assert_eq!(app.focus, Focus::Menu);
    assert_eq!(app.menu_index, 0);
    assert!(app.device_path.is_empty());
    assert_eq!(app.progress_percent, 0);
    assert!(matches!(app.status, Status::Empty));
}

#[test]
fn menu_navigation_is_bounded() {
    let mut app = App::new();
    app.handle_key(Key::Up);
    assert_eq!(app.menu_index, 0);
    app.handle_key(Key::Down);
    app.handle_key(Key::Char('j'));
    app.handle_key(Key::Down);
    assert_eq!(app.menu_index, 2);
    app.handle_key(Key::Char('k'));
    assert_eq!(app.menu_index, 1);
    app.handle_key(Key::Char('x'));
    assert_eq!(app.menu_index, 1);
    assert_eq!(app.state, AppState::MainMenu);
}

#[test]
fn quit_through_exit_warning() {
    let mut app = App::new();
    app.handle_key(Key::Esc);
    assert_eq!(app.state, AppState::ExitWarning);
    assert_eq!(app.focus, Focus::Dialog);
    app.handle_key(Key::Esc);
    assert_eq!(app.state, AppState::MainMenu);
    assert_eq!(app.focus, Focus::Menu);
    app.handle_key(Key::Down);
    app.handle_key(Key::Down);
    app.handle_key(Key::Enter);
    assert_eq!(app.state, AppState::ExitWarning);
    app.handle_key(Key::Char('q'));
    assert_eq!(app.state, AppState::Quit);
    assert_eq!(app.handle_key(Key::Enter), Command::Nothing);
    assert_eq!(app.state, AppState::Quit);
}

#[test]
fn encrypt_form_flow() {
    let mut app = App::new();
    app.handle_key(Key::Enter);
    assert_eq!(app.state, AppState::EncryptSelectDevice);
    assert_eq!(app.focus, Focus::Input);
    // an empty device path does not advance
    app.handle_key(Key::Enter);
    assert_eq!(app.state, AppState::EncryptSelectDevice);
    type_text(&mut app, "/dev/sdbx");
    app.handle_key(Key::Backspace);
    assert_eq!(app.device_path.iter().collect::<String>(), "/dev/sdb");
    app.handle_key(Key::Tab);
    assert_eq!(app.state, AppState::EncryptEnterPassword);
    assert_eq!(app.input_field, 1);
    type_text(&mut app, "pw");
    app.handle_key(Key::Enter);
    assert_eq!(app.state, AppState::EncryptConfirm);
    assert_eq!(app.input_field, 2);
    type_text(&mut app, "px");
    assert_eq!(app.handle_key(Key::Enter), Command::Nothing);
    assert!(matches!(app.status, Status::PasswordsDiffer));
    assert_eq!(app.state, AppState::EncryptConfirm);
    app.handle_key(Key::Backspace);
    type_text(&mut app, "w");
    assert_eq!(app.handle_key(Key::Enter), Command::Encrypt);
    assert_eq!(app.state, AppState::Encrypting);
    assert!(matches!(app.status, Status::Encrypting));
    // keys are ignored while the work runs
    assert_eq!(app.handle_key(Key::Esc), Command::Nothing);
    app.finish(true, Ok(()));
    assert_eq!(app.state, AppState::EncryptSuccess);
    assert_eq!(app.progress_percent, 100);
    assert!(matches!(app.status, Status::EncryptionComplete));
    app.handle_key(Key::Enter);
    assert_eq!(app.state, AppState::PaperBackup);
    app.handle_key(Key::Char('q'));
    assert_eq!(app.state, AppState::Quit);
}

#[test]
fn empty_passwords_do_not_start_encryption() {
    let mut app = App::new();
    app.handle_key(Key::Enter);
    type_text(&mut app, "d");
    app.handle_key(Key::Enter);
    app.handle_key(Key::Enter);
    assert_eq!(app.state, AppState::EncryptConfirm);
    assert_eq!(app.handle_key(Key::Enter), Command::Nothing);
    assert!(matches!(app.status, Status::PasswordsDiffer));
}

#[test]
fn decrypt_form_flow_and_failure() {
    let mut app = App::new();
    app.handle_key(Key::Down);
    app.handle_key(Key::Char(' '));
    assert_eq!(app.state, AppState::DecryptSelectDevice);
    type_text(&mut app, "/dev/sdc");
    app.handle_key(Key::Enter);
    assert_eq!(app.state, AppState::DecryptEnterPassword);
    type_text(&mut app, "secret");
    app.handle_key(Key::BackTab);
    assert_eq!(app.input_field, 0);
    assert_eq!(app.state, AppState::DecryptEnterPassword);
    assert_eq!(app.handle_key(Key::Enter), Command::Decrypt);
    assert_eq!(app.state, AppState::Decrypting);
    app.finish(false, Err("Wrong password or corrupted header".to_string()));
    assert_eq!(app.state, AppState::MainMenu);
    match &app.status {
        Status::Failed(e) => assert_eq!(e, "Wrong password or corrupted header"),
        _ => panic!("expected a failure status"),
    }
}

#[test]
fn escape_leaves_form() {
    let mut app = App::new();
    app.handle_key(Key::Enter);
    type_text(&mut app, "abc");
    app.handle_key(Key::Esc);
    assert_eq!(app.state, AppState::MainMenu);
    assert_eq!(app.focus, Focus::Menu);
    app.handle_key(Key::Enter);
    assert!(app.device_path.is_empty());
}

#[test]
fn mouse_changes_nothing() {
    let mut app = App::new();
    app.handle_mouse();
    assert_eq!(app.state, AppState::MainMenu);
}

#[test]
fn overlay_is_centered() {
    assert_eq!(centered_overlay(0, 0, 80, 24), (20, 6, 40, 12));
    assert_eq!(centered_overlay(2, 1, 10, 5), (4, 2, 5, 2));
}

#[test]
fn status_messages() {
    assert_eq!(Status::Empty.message(), "");
    assert_eq!(Status::PasswordsDiffer.message(), "Passwords do not match!");
    assert_eq!(Status::Encrypting.message(), "Encrypting...");
    assert_eq!(Status::EncryptionComplete.message(), "Encryption complete!");
    assert_eq!(Status::Decrypting.message(), "Decrypting...");
    assert_eq!(Status::DecryptionComplete.message(), "Decryption complete!");
    assert_eq!(Status::Failed("Seek failed".to_string()).message(), "Error: Seek failed");
}

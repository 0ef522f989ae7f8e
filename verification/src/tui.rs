//! The state machine of the terminal interface: how each key moves between
//! screens and edits the form fields. Drawing and the device work that a
//! screen asks for stand outside the library, which hands back a
//! [`Command`] and takes the outcome.

use vstd::prelude::*;
use vstd::string::StringExecFns;

verus! {

/// The screens of the interface.
#[derive(Debug, Clone, Copy, PartialEq, Eq, Structural)]
pub enum AppState {
    MainMenu,
    EncryptSelectDevice,
    EncryptEnterPassword,
    EncryptConfirm,
    Encrypting,
    EncryptSuccess,
    DecryptSelectDevice,
    DecryptEnterPassword,
    Decrypting,
    DecryptSuccess,
    ExitWarning,
    PaperBackup,
    Quit,
}

/// Which part of the screen takes the keys.
#[derive(Debug, Clone, Copy, PartialEq, Eq, Structural)]
pub enum Focus {
    Menu,
    Input,
    Dialog,
}

/// The keys that the interface tells apart.
#[derive(Debug, Clone, Copy, PartialEq, Eq, Structural)]
pub enum Key {
    Up,
    Down,
    Enter,
    Esc,
    Tab,
    BackTab,
    Backspace,
    Char(char),
    Other,
}

/// The status line under the menu and on the progress screen.
#[derive(Debug, Clone)]
pub enum Status {
    Empty,
    PasswordsDiffer,
    Encrypting,
    EncryptionComplete,
    Decrypting,
    DecryptionComplete,
    Failed(String),
}

impl Status {
    /// The text of the status line.
    pub fn message(&self) -> (m: String)
        ensures
            self is Empty ==> m@ == Seq::<char>::empty(),
            self is PasswordsDiffer ==> m@ == "Passwords do not match!"@,
            self is Encrypting ==> m@ == "Encrypting..."@,
            self is EncryptionComplete ==> m@ == "Encryption complete!"@,
            self is Decrypting ==> m@ == "Decrypting..."@,
            self is DecryptionComplete ==> m@ == "Decryption complete!"@,
            self matches Status::Failed(e) ==> m@ == "Error: "@ + e@,
    {
        match self {
            Status::Empty => String::new(),
            Status::PasswordsDiffer => String::from_str("Passwords do not match!"),
            Status::Encrypting => String::from_str("Encrypting..."),
            Status::EncryptionComplete => String::from_str("Encryption complete!"),
            Status::Decrypting => String::from_str("Decrypting..."),
            Status::DecryptionComplete => String::from_str("Decryption complete!"),
            Status::Failed(e) => {
                let mut m = String::from_str("Error: ");
                m.append(e.as_str());
                m
            },
        }
    }
}

/// Work that a key asks the caller to do, with the device path and
/// password of the form.
#[derive(Debug, Clone, Copy, PartialEq, Eq, Structural)]
pub enum Command {
    Nothing,
    Encrypt,
    Decrypt,
}

/// The interface's state as plain values.
pub struct AppView {
    pub state: AppState,
    pub focus: Focus,
    pub menu_index: usize,
    pub device_path: Seq<char>,
    pub password: Seq<char>,
    pub confirm_password: Seq<char>,
    pub input_field: usize,
    pub progress_percent: u16,
    pub status: Status,
    pub show_exit_warning: bool,
}

/// The interface's state: the screen, the focus, the selected menu entry,
/// the three form fields, the active field, the progress in percent and the
/// status line.
pub struct App {
    pub state: AppState,
    pub focus: Focus,
    pub menu_index: usize,
    pub device_path: Vec<char>,
    pub password: Vec<char>,
    pub confirm_password: Vec<char>,
    pub input_field: usize,
    pub progress_percent: u16,
    pub status: Status,
    pub show_exit_warning: bool,
}

impl View for App {
    type V = AppView;

    open spec fn view(&self) -> AppView {
        AppView {
            state: self.state,
            focus: self.focus,
            menu_index: self.menu_index,
            device_path: self.device_path@,
            password: self.password@,
            confirm_password: self.confirm_password@,
            input_field: self.input_field,
            progress_percent: self.progress_percent,
            status: self.status,
            show_exit_warning: self.show_exit_warning,
        }
    }
}

/// Whether two character strings are equal.
fn chars_equal(a: &Vec<char>, b: &Vec<char>) -> (r: bool)
    ensures
        r == (a@ == b@),
{
    if a.len() != b.len() {
        return false;
    }
    let mut i: usize = 0;
    while i < a.len()
        invariant
            a@.len() == b@.len(),
            i <= a@.len(),
            forall|k: int| 0 <= k < i ==> a@[k] == b@[k],
        decreases a@.len() - i,
    {
        if a[i] != b[i] {
            return false;
        }
        i = i + 1;
    }
    assert(a@ =~= b@);
    true
}

/// The string without its last character, if any.
pub open spec fn drop_last_char(s: Seq<char>) -> Seq<char> {
    if s.len() == 0 {
        s
    } else {
        s.drop_last()
    }
}

/// The field that a form screen edits: 0 the device path, 1 the password,
/// 2 the confirmation.
pub open spec fn field_of(state: AppState) -> usize {
    match state {
        AppState::EncryptSelectDevice | AppState::DecryptSelectDevice => 0,
        AppState::EncryptEnterPassword | AppState::DecryptEnterPassword => 1,
        _ => 2,
    }
}

/// The screens with a form.
pub open spec fn is_form(state: AppState) -> bool {
    ||| state == AppState::EncryptSelectDevice
    ||| state == AppState::EncryptEnterPassword
    ||| state == AppState::EncryptConfirm
    ||| state == AppState::DecryptSelectDevice
    ||| state == AppState::DecryptEnterPassword
}

/// A key on the main menu: up (or k) and down (or j) move the selection
/// among the three entries, Enter or space opens the selected entry, q or
/// Esc opens the exit warning; other keys change nothing.
pub open spec fn menu_step(s: AppView, key: Key) -> AppView {
    if key == Key::Up || key == Key::Char('k') {
        AppView { menu_index: if s.menu_index > 0 { (s.menu_index - 1) as usize } else { s.menu_index }, ..s }
    } else if key == Key::Down || key == Key::Char('j') {
        AppView { menu_index: if s.menu_index < 2 { (s.menu_index + 1) as usize } else { s.menu_index }, ..s }
    } else if key == Key::Enter || key == Key::Char(' ') {
        if s.menu_index == 0 {
            AppView {
                state: AppState::EncryptSelectDevice,
                focus: Focus::Input,
                input_field: 0,
                device_path: Seq::empty(),
                password: Seq::empty(),
                confirm_password: Seq::empty(),
                ..s
            }
        } else if s.menu_index == 1 {
            AppView {
                state: AppState::DecryptSelectDevice,
                focus: Focus::Input,
                input_field: 0,
                device_path: Seq::empty(),
                password: Seq::empty(),
                ..s
            }
        } else if s.menu_index == 2 {
            AppView { state: AppState::ExitWarning, focus: Focus::Dialog, ..s }
        } else {
            s
        }
    } else if key == Key::Char('q') || key == Key::Esc {
        AppView { state: AppState::ExitWarning, focus: Focus::Dialog, ..s }
    } else {
        s
    }
}

/// A key on a form screen whose active field is `field`: Esc goes back to
/// the menu, BackTab moves the highlight back, Tab or Enter moves to the
/// next step (or asks for the work, once the form is complete), Backspace
/// and characters edit the field. Returns the new state and the work asked
/// for.
pub open spec fn input_step(s: AppView, key: Key, field: usize) -> (AppView, Command) {
    match key {
        Key::Esc => (AppView { state: AppState::MainMenu, focus: Focus::Menu, ..s }, Command::Nothing),
        Key::BackTab => (
            AppView { input_field: if field > 0 { (field - 1) as usize } else { s.input_field }, ..s },
            Command::Nothing,
        ),
        Key::Tab | Key::Enter => if field == 0 {
            if s.device_path.len() != 0 && s.state == AppState::EncryptSelectDevice {
                (AppView { state: AppState::EncryptEnterPassword, input_field: 1, ..s }, Command::Nothing)
            } else if s.device_path.len() != 0 && s.state == AppState::DecryptSelectDevice {
                (AppView { state: AppState::DecryptEnterPassword, input_field: 1, ..s }, Command::Nothing)
            } else {
                (s, Command::Nothing)
            }
        } else if field == 1 {
            if s.state == AppState::EncryptEnterPassword {
                (AppView { state: AppState::EncryptConfirm, input_field: 2, ..s }, Command::Nothing)
            } else if s.state == AppState::DecryptEnterPassword {
                (
                    AppView { state: AppState::Decrypting, progress_percent: 0, status: Status::Decrypting, ..s },
                    Command::Decrypt,
                )
            } else {
                (s, Command::Nothing)
            }
        } else if field == 2 {
            if s.password == s.confirm_password && s.password.len() != 0 {
                (
                    AppView { state: AppState::Encrypting, progress_percent: 0, status: Status::Encrypting, ..s },
                    Command::Encrypt,
                )
            } else {
                (AppView { status: Status::PasswordsDiffer, ..s }, Command::Nothing)
            }
        } else {
            (s, Command::Nothing)
        },
        Key::Backspace => if field == 0 {
            (AppView { device_path: drop_last_char(s.device_path), ..s }, Command::Nothing)
        } else if field == 1 {
            (AppView { password: drop_last_char(s.password), ..s }, Command::Nothing)
        } else if field == 2 {
            (AppView { confirm_password: drop_last_char(s.confirm_password), ..s }, Command::Nothing)
        } else {
            (s, Command::Nothing)
        },
        Key::Char(c) => if field == 0 {
            (AppView { device_path: s.device_path.push(c), ..s }, Command::Nothing)
        } else if field == 1 {
            (AppView { password: s.password.push(c), ..s }, Command::Nothing)
        } else if field == 2 {
            (AppView { confirm_password: s.confirm_password.push(c), ..s }, Command::Nothing)
        } else {
            (s, Command::Nothing)
        },
        _ => (s, Command::Nothing),
    }
}

/// A key on the exit warning: q or Enter quits, Esc goes back to the menu.
pub open spec fn exit_warning_step(s: AppView, key: Key) -> AppView {
    if key == Key::Char('q') || key == Key::Enter {
        AppView { state: AppState::Quit, ..s }
    } else if key == Key::Esc {
        AppView { state: AppState::MainMenu, focus: Focus::Menu, ..s }
    } else {
        s
    }
}

/// A key on any screen: the new state and the work asked for.
pub open spec fn key_step(s: AppView, key: Key) -> (AppView, Command) {
    match s.state {
        AppState::MainMenu => (menu_step(s, key), Command::Nothing),
        AppState::ExitWarning => (exit_warning_step(s, key), Command::Nothing),
        AppState::PaperBackup => if key == Key::Esc || key == Key::Char('q') {
            (AppView { state: AppState::Quit, ..s }, Command::Nothing)
        } else {
            (s, Command::Nothing)
        },
        AppState::EncryptSuccess | AppState::DecryptSuccess => if key == Key::Esc || key == Key::Enter {
            (AppView { state: AppState::PaperBackup, ..s }, Command::Nothing)
        } else {
            (s, Command::Nothing)
        },
        AppState::Encrypting | AppState::Decrypting | AppState::Quit => (s, Command::Nothing),
        _ => input_step(s, key, field_of(s.state)),
    }
}

/// The state once the work that a key asked for has ended: on success the
/// done screen with full progress, on failure the menu with the error.
pub open spec fn finish_step(s: AppView, encrypting: bool, outcome: Result<(), String>) -> AppView {
    match outcome {
        Ok(()) => AppView {
            state: if encrypting { AppState::EncryptSuccess } else { AppState::DecryptSuccess },
            progress_percent: 100,
            status: if encrypting { Status::EncryptionComplete } else { Status::DecryptionComplete },
            ..s
        },
        Err(e) => AppView { state: AppState::MainMenu, status: Status::Failed(e), ..s },
    }
}

impl App {
    /// The interface at start: the main menu, nothing typed.
    pub fn new() -> (app: Self)
        ensures
            app@ == (AppView {
                state: AppState::MainMenu,
                focus: Focus::Menu,
                menu_index: 0,
                device_path: Seq::empty(),
                password: Seq::empty(),
                confirm_password: Seq::empty(),
                input_field: 0,
                progress_percent: 0,
                status: Status::Empty,
                show_exit_warning: false,
            }),
    {
        App {
            state: AppState::MainMenu,
            focus: Focus::Menu,
            menu_index: 0,
            device_path: Vec::new(),
            password: Vec::new(),
            confirm_password: Vec::new(),
            input_field: 0,
            progress_percent: 0,
            status: Status::Empty,
            show_exit_warning: false,
        }
    }

    fn handle_menu_key(&mut self, key: Key)
        ensures
            final(self)@ == menu_step(old(self)@, key),
    {
        match key {
            Key::Up | Key::Char('k') => {
                if self.menu_index > 0 {
                    self.menu_index = self.menu_index - 1;
                }
            },
            Key::Down | Key::Char('j') => {
                if self.menu_index < 2 {
                    self.menu_index = self.menu_index + 1;
                }
            },
            Key::Enter | Key::Char(' ') => {
                if self.menu_index == 0 {
                    self.state = AppState::EncryptSelectDevice;
                    self.focus = Focus::Input;
                    self.input_field = 0;
                    self.device_path.clear();
                    self.password.clear();
                    self.confirm_password.clear();
                } else if self.menu_index == 1 {
                    self.state = AppState::DecryptSelectDevice;
                    self.focus = Focus::Input;
                    self.input_field = 0;
                    self.device_path.clear();
                    self.password.clear();
                } else if self.menu_index == 2 {
                    self.state = AppState::ExitWarning;
                    self.focus = Focus::Dialog;
                }
            },
            Key::Char('q') | Key::Esc => {
                self.state = AppState::ExitWarning;
                self.focus = Focus::Dialog;
            },
            _ => {},
        }
        assert(self@ =~= menu_step(old(self)@, key));
    }

    fn handle_input_key(&mut self, key: Key, field: usize) -> (cmd: Command)
        ensures
            (final(self)@, cmd) == input_step(old(self)@, key, field),
    {
        let ghost s0 = self@;
        match key {
            Key::Esc => {
                self.state = AppState::MainMenu;
                self.focus = Focus::Menu;
            },
            Key::BackTab => {
                if field > 0 {
                    self.input_field = field - 1;
                }
            },
            Key::Tab | Key::Enter => {
                if field == 0 {
                    if self.device_path.len() != 0 {
                        if self.state == AppState::EncryptSelectDevice {
                            self.state = AppState::EncryptEnterPassword;
                            self.input_field = 1;
                        } else if self.state == AppState::DecryptSelectDevice {
                            self.state = AppState::DecryptEnterPassword;
                            self.input_field = 1;
                        }
                    }
                } else if field == 1 {
                    if self.state == AppState::EncryptEnterPassword {
                        self.state = AppState::EncryptConfirm;
                        self.input_field = 2;
                    } else if self.state == AppState::DecryptEnterPassword {
                        self.start_decrypt();
                        return Command::Decrypt;
                    }
                } else if field == 2 {
                    if chars_equal(&self.password, &self.confirm_password) && self.password.len()
                        != 0 {
                        self.start_encrypt();
                        return Command::Encrypt;
                    } else {
                        self.status = Status::PasswordsDiffer;
                    }
                }
            },
            Key::Backspace => {
                if field == 0 {
                    self.device_path.pop();
                } else if field == 1 {
                    self.password.pop();
                } else if field == 2 {
                    self.confirm_password.pop();
                }
            },
            Key::Char(c) => {
                if field == 0 {
                    self.device_path.push(c);
                } else if field == 1 {
                    self.password.push(c);
                } else if field == 2 {
                    self.confirm_password.push(c);
                }
            },
            _ => {},
        }
        proof {
            if key == Key::Backspace {
                assert(self@.device_path =~= if field == 0 { drop_last_char(s0.device_path) } else { s0.device_path });
                assert(self@.password =~= if field == 1 { drop_last_char(s0.password) } else { s0.password });
                assert(self@.confirm_password =~= if field == 2 { drop_last_char(s0.confirm_password) } else { s0.confirm_password });
            }
        }
        Command::Nothing
    }

    fn handle_exit_warning_key(&mut self, key: Key)
        ensures
            final(self)@ == exit_warning_step(old(self)@, key),
    {
        match key {
            Key::Char('q') | Key::Enter => {
                self.state = AppState::Quit;
            },
            Key::Esc => {
                self.state = AppState::MainMenu;
                self.focus = Focus::Menu;
            },
            _ => {},
        }
    }

    fn start_encrypt(&mut self)
        ensures
            final(self)@ == (AppView {
                state: AppState::Encrypting,
                progress_percent: 0,
                status: Status::Encrypting,
                ..old(self)@
            }),
    {
        self.state = AppState::Encrypting;
        self.progress_percent = 0;
        self.status = Status::Encrypting;
    }

    fn start_decrypt(&mut self)
        ensures
            final(self)@ == (AppView {
                state: AppState::Decrypting,
                progress_percent: 0,
                status: Status::Decrypting,
                ..old(self)@
            }),
    {
        self.state = AppState::Decrypting;
        self.progress_percent = 0;
        self.status = Status::Decrypting;
    }

    /// Handles a key: the new state, and the device work that the key asks
    /// for ([`Command::Encrypt`] or [`Command::Decrypt`] with the form's
    /// device path and password), which the caller performs and reports
    /// back through [`App::finish`].
    pub fn handle_key(&mut self, key: Key) -> (cmd: Command)
        ensures
            (final(self)@, cmd) == key_step(old(self)@, key),
    {
        match self.state {
            AppState::MainMenu => {
                self.handle_menu_key(key);
                Command::Nothing
            },
            AppState::EncryptSelectDevice => self.handle_input_key(key, 0),
            AppState::EncryptEnterPassword => self.handle_input_key(key, 1),
            AppState::EncryptConfirm => self.handle_input_key(key, 2),
            AppState::DecryptSelectDevice => self.handle_input_key(key, 0),
            AppState::DecryptEnterPassword => self.handle_input_key(key, 1),
            AppState::ExitWarning => {
                self.handle_exit_warning_key(key);
                Command::Nothing
            },
            AppState::PaperBackup => {
                if key == Key::Esc || key == Key::Char('q') {
                    self.state = AppState::Quit;
                }
                Command::Nothing
            },
            AppState::Encrypting | AppState::Decrypting => Command::Nothing,
            AppState::EncryptSuccess | AppState::DecryptSuccess => {
                if key == Key::Esc || key == Key::Enter {
                    self.state = AppState::PaperBackup;
                }
                Command::Nothing
            },
            AppState::Quit => Command::Nothing,
        }
    }

    /// Mouse events change nothing.
    pub fn handle_mouse(&mut self)
        ensures
            final(self)@ == old(self)@,
    {
    }

    /// Takes the outcome of the device work that a key asked for
    /// (`encrypting` tells which), with the error's text on failure.
    pub fn finish(&mut self, encrypting: bool, outcome: Result<(), String>)
        ensures
            final(self)@ == finish_step(old(self)@, encrypting, outcome),
    {
        match outcome {
            Ok(()) => {
                if encrypting {
                    self.state = AppState::EncryptSuccess;
                    self.status = Status::EncryptionComplete;
                } else {
                    self.state = AppState::DecryptSuccess;
                    self.status = Status::DecryptionComplete;
                }
                self.progress_percent = 100;
            },
            Err(e) => {
                self.state = AppState::MainMenu;
                self.status = Status::Failed(e);
            },
        }
    }
}

/// On the screens after the device step, a device path has been given.
pub open spec fn device_given(s: AppView) -> bool {
    (s.state == AppState::EncryptEnterPassword || s.state == AppState::EncryptConfirm || s.state
        == AppState::DecryptEnterPassword || s.state == AppState::Encrypting || s.state
        == AppState::Decrypting) ==> s.device_path.len() > 0
}

/// The selected menu entry stays among the three entries.
pub proof fn lemma_menu_index_bounded(s: AppView, key: Key)
    requires
        s.menu_index <= 2,
    ensures
        key_step(s, key).0.menu_index <= 2,
{
}

/// Every key keeps a device path on the screens after the device step, and
/// so does the end of the device work.
pub proof fn lemma_device_given_kept(s: AppView, key: Key, encrypting: bool, outcome: Result<(), String>)
    requires
        device_given(s),
    ensures
        device_given(key_step(s, key).0),
        device_given(finish_step(s, encrypting, outcome)),
{
}

/// The interface asks for device work only with a device path; encryption
/// only once the password has been typed twice alike and is not empty, and
/// decryption only from the password screen.
pub proof fn lemma_work_needs_complete_form(s: AppView, key: Key)
    requires
        device_given(s),
    ensures
        key_step(s, key).1 == Command::Encrypt ==> {
            &&& s.state == AppState::EncryptConfirm
            &&& s.device_path.len() > 0
            &&& s.password == s.confirm_password
            &&& s.password.len() > 0
        },
        key_step(s, key).1 == Command::Decrypt ==> s.state == AppState::DecryptEnterPassword
            && s.device_path.len() > 0,
{
}

/// The interface quits only from the exit warning or the paper backup
/// reminder, so a warning is always shown before it ends; once quit, it
/// stays so.
pub proof fn lemma_quit_only_after_warning(s: AppView, key: Key)
    ensures
        key_step(s, key).0.state == AppState::Quit ==> s.state == AppState::ExitWarning || s.state
            == AppState::PaperBackup || s.state == AppState::Quit,
        s.state == AppState::Quit ==> key_step(s, key) == (s, Command::Nothing),
{
}

/// On the main menu, j/k or the arrows move the selection within the three
/// entries, q or Esc open the exit warning (never quitting at once), and
/// each key on the menu is handled by [`menu_step`].
pub proof fn lemma_menu_navigation(s: AppView, key: Key)
    requires
        s.state == AppState::MainMenu,
        s.menu_index <= 2,
    ensures
        key_step(s, key) == (menu_step(s, key), Command::Nothing),
        menu_step(s, key).menu_index <= 2,
        menu_step(s, key).state != AppState::Quit,
        key == Key::Char('q') || key == Key::Esc ==> menu_step(s, key).state == AppState::ExitWarning
            && menu_step(s, key).focus == Focus::Dialog,
        key == Key::Up || key == Key::Char('k') ==> menu_step(s, key).menu_index == if s.menu_index
            > 0 {
            s.menu_index - 1
        } else {
            0
        },
        key == Key::Down || key == Key::Char('j') ==> menu_step(s, key).menu_index == if s.menu_index
            < 2 {
            s.menu_index + 1
        } else {
            2
        },
{
}

/// The text without its last character (unchanged when empty).
pub open spec fn shortened(t: Seq<char>) -> Seq<char> {
    if t.len() > 0 {
        t.subrange(0, t.len() - 1)
    } else {
        t
    }
}

/// On a form screen, Backspace removes the last character of exactly the
/// field that the screen edits (the device path on the device screens, the
/// password on the password screens, the confirmation on the confirmation
/// screen), and a character key appends to exactly that field; the other
/// fields and the screen stay as they were, and no work is asked for.
pub proof fn lemma_editing_changes_the_active_field(s: AppView, c: char)
    requires
        is_form(s.state),
    ensures
        ({
            let (n, cmd) = key_step(s, Key::Backspace);
            &&& cmd == Command::Nothing
            &&& n.state == s.state
            &&& n.device_path == if s.state == AppState::EncryptSelectDevice || s.state
                == AppState::DecryptSelectDevice {
                shortened(s.device_path)
            } else {
                s.device_path
            }
            &&& n.password == if s.state == AppState::EncryptEnterPassword || s.state
                == AppState::DecryptEnterPassword {
                shortened(s.password)
            } else {
                s.password
            }
            &&& n.confirm_password == if s.state == AppState::EncryptConfirm {
                shortened(s.confirm_password)
            } else {
                s.confirm_password
            }
        }),
        ({
            let (n, cmd) = key_step(s, Key::Char(c));
            &&& cmd == Command::Nothing
            &&& n.state == s.state
            &&& n.device_path == if s.state == AppState::EncryptSelectDevice || s.state
                == AppState::DecryptSelectDevice {
                s.device_path + seq![c]
            } else {
                s.device_path
            }
            &&& n.password == if s.state == AppState::EncryptEnterPassword || s.state
                == AppState::DecryptEnterPassword {
                s.password + seq![c]
            } else {
                s.password
            }
            &&& n.confirm_password == if s.state == AppState::EncryptConfirm {
                s.confirm_password + seq![c]
            } else {
                s.confirm_password
            }
        }),
{
    assert(s.device_path.push(c) =~= s.device_path + seq![c]);
    assert(s.password.push(c) =~= s.password + seq![c]);
    assert(s.confirm_password.push(c) =~= s.confirm_password + seq![c]);
    if s.device_path.len() > 0 {
        assert(s.device_path.drop_last() =~= s.device_path.subrange(0, s.device_path.len() - 1));
    }
    if s.password.len() > 0 {
        assert(s.password.drop_last() =~= s.password.subrange(0, s.password.len() - 1));
    }
    if s.confirm_password.len() > 0 {
        assert(s.confirm_password.drop_last() =~= s.confirm_password.subrange(
            0,
            s.confirm_password.len() - 1,
        ));
    }
}

/// A failed piece of device work never shows success: it goes back to the
/// menu with the error; the done screens are reached only when the work
/// succeeded, the one for the work that was done, with full progress; and
/// no key leads to a done screen from anywhere else.
pub proof fn lemma_success_only_after_success(
    s: AppView,
    encrypting: bool,
    outcome: Result<(), String>,
    key: Key,
)
    ensures
        outcome matches Err(e) ==> finish_step(s, encrypting, outcome).state == AppState::MainMenu
            && finish_step(s, encrypting, outcome).status == Status::Failed(e),
        outcome is Ok ==> finish_step(s, encrypting, outcome).state == (if encrypting {
            AppState::EncryptSuccess
        } else {
            AppState::DecryptSuccess
        }) && finish_step(s, encrypting, outcome).progress_percent == 100,
        (finish_step(s, encrypting, outcome).state == AppState::EncryptSuccess || finish_step(
            s,
            encrypting,
            outcome,
        ).state == AppState::DecryptSuccess) ==> outcome is Ok,
        key_step(s, key).0.state == AppState::EncryptSuccess ==> s.state == AppState::EncryptSuccess,
        key_step(s, key).0.state == AppState::DecryptSuccess ==> s.state == AppState::DecryptSuccess,
{
}

/// The rectangle of a dialog drawn over an area (`x`, `y`, `width`,
/// `height`): half as wide and half as high, a quarter of the way in.
pub fn centered_overlay(x: u16, y: u16, width: u16, height: u16) -> (r: (u16, u16, u16, u16))
    requires
        x + width / 4 <= u16::MAX,
        y + height / 4 <= u16::MAX,
    ensures
        r == ((x + width / 4) as u16, (y + height / 4) as u16, width / 2, height / 2),
{
    (x + width / 4, y + height / 4, width / 2, height / 2)
}

} // verus!

use ferr_os::drivers::io::vgat_out::{VgatBuffer, VgatOut};
use ferr_os::drivers::io::Registry;

#[test]
fn dispatch_without_a_console_is_dropped() {
    let mut reg: Registry<80, 25> = Registry::new();
    assert!(!reg.is_installed());
    assert!(reg.dispatch("hello").is_ok());
    assert!(!reg.is_installed());
    assert!(reg.take().is_none());
}

#[test]
fn dispatch_writes_to_the_installed_console() {
    let text = "boot \\x1b[1;32mok\\x1b[0m\nnext";
    let mut direct: VgatOut<80, 25> = VgatOut::new(VgatBuffer::blank());
    direct.write_str(text).unwrap();

    let mut reg: Registry<80, 25> = Registry::new();
    reg.install(VgatOut::new(VgatBuffer::blank()));
    assert!(reg.is_installed());
    assert!(reg.dispatch(text).is_ok());
    let out = reg.take().unwrap();
    assert_eq!(out.buffer().cells, direct.buffer().cells);
    assert_eq!(out.cursor(), direct.cursor());
    assert_eq!(out.style(), direct.style());
}

#[test]
fn install_replaces_and_clear_removes() {
    let mut reg: Registry<4, 2> = Registry::new();
    reg.install(VgatOut::new(VgatBuffer::blank()));
    reg.dispatch("ab").unwrap();
    reg.install(VgatOut::new(VgatBuffer::blank()));
    let out = reg.take().unwrap();
    assert_eq!(out.cursor(), (0, 0));
    reg.install(out);
    reg.clear();
    assert!(!reg.is_installed());
    assert!(reg.dispatch("x").is_ok());
}

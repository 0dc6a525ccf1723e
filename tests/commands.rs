use fastboot::fastboot::{Client, Fastboot, IoError, Transport};
use fastboot::scripted::ScriptedDevice;

#[test]
fn test_getvar() {
    let mut device = ScriptedDevice::new();
    device.reply_to("getvar:version".as_bytes(), "OKAY1.0".as_bytes());
    device.reply_to("getvar:something".as_bytes(), "FAIL".as_bytes());
    let mut mock = Client::new(device);
    assert_eq!(Ok("1.0".to_owned()), mock.getvar("version"));

    assert_eq!(Err("".to_owned()), mock.getvar("something"));
}

#[test]
fn test_download() {
    let mut device = ScriptedDevice::new();
    device.reply_to("download:00000004".as_bytes(), "DATA00000004".as_bytes());
    device.reply_to("data".as_bytes(), "OKAY".as_bytes());
    device.reply_to("download:00000400".as_bytes(), "FAIL".as_bytes());
    let mut mock = Client::new(device);
    assert_eq!(Ok(()), mock.download("data".as_bytes()));

    assert_eq!(Err("".to_owned()), mock.download(&vec![0; 1024]));
}

#[test]
fn test_flash() {
    let mut device = ScriptedDevice::new();
    device.reply_to("flash:mmc0:dead".as_bytes(), "OKAY1.0".as_bytes());
    device.reply_to("flash:something".as_bytes(), "FAIL".as_bytes());
    let mut mock = Client::new(device);
    assert_eq!(Ok(()), mock.flash("mmc0:dead"));

    assert_eq!(Err("".to_owned()), mock.flash("something"));
}

#[test]
fn test_erase() {
    let mut device = ScriptedDevice::new();
    device.reply_to("erase:mmc0:dead".as_bytes(), "OKAY1.0".as_bytes());
    device.reply_to("erase:something".as_bytes(), "FAIL".as_bytes());
    let mut mock = Client::new(device);
    assert_eq!(Ok(()), mock.erase("mmc0:dead"));

    assert_eq!(Err("".to_owned()), mock.erase("something"));
}

#[test]
fn test_reboot() {
    let mut device = ScriptedDevice::new();
    device.reply_to("reboot".as_bytes(), "OKAY1.0".as_bytes());
    let mut mock = Client::new(device);
    assert_eq!(Ok(()), mock.reboot());
}

#[test]
fn reboot_sends_the_bare_word() {
    let mut device = ScriptedDevice::new();
    device.reply_to("reboot".as_bytes(), "OKAY".as_bytes());
    let mut dev = Client::new(device);
    assert_eq!(Ok(()), dev.reboot());
    assert_eq!(dev.io().sent(), &vec![b"reboot".to_vec()]);
}

#[test]
fn getvar_with_fail_reason() {
    let mut device = ScriptedDevice::new();
    device.reply_to("getvar:serialno".as_bytes(), "FAILno such variable".as_bytes());
    let mut dev = Client::new(device);
    assert_eq!(Err("no such variable".to_owned()), dev.getvar("serialno"));
    assert_eq!(dev.io().sent(), &vec![b"getvar:serialno".to_vec()]);
}

#[test]
fn getvar_info_reply_is_unknown_failure() {
    let mut device = ScriptedDevice::new();
    device.reply_to("getvar:version".as_bytes(), "INFOwait".as_bytes());
    let mut dev = Client::new(device);
    assert_eq!(Err("unknown failure".to_owned()), dev.getvar("version"));
}

#[test]
fn getvar_empty_okay_value() {
    let mut device = ScriptedDevice::new();
    device.reply_to("getvar:product".as_bytes(), "OKAY".as_bytes());
    let mut dev = Client::new(device);
    assert_eq!(Ok("".to_owned()), dev.getvar("product"));
}

#[test]
fn flash_only_the_scripted_partition_succeeds() {
    let mut device = ScriptedDevice::new();
    device.reply_to("flash:mmc0:dead".as_bytes(), "OKAY1.0".as_bytes());
    let mut dev = Client::new(device);
    assert_eq!(Ok(()), dev.flash("mmc0:dead"));
    assert_eq!(
        Err("no reply scripted for this command".to_owned()),
        dev.flash("mmc0:beef")
    );
    assert!(dev.flash("mmc1:dead").is_err());
}

#[test]
fn flash_data_reply_is_unknown_failure() {
    let mut device = ScriptedDevice::new();
    device.reply_to("flash:boot".as_bytes(), "DATA00000010".as_bytes());
    let mut dev = Client::new(device);
    assert_eq!(Err("unknown failure".to_owned()), dev.flash("boot"));
}

#[test]
fn erase_with_fail_reason() {
    let mut device = ScriptedDevice::new();
    device.reply_to("erase:userdata".as_bytes(), "FAILlocked".as_bytes());
    let mut dev = Client::new(device);
    assert_eq!(Err("locked".to_owned()), dev.erase("userdata"));
}

#[test]
fn download_sends_payload_after_exact_size() {
    let mut device = ScriptedDevice::new();
    device.reply_to("download:00000004".as_bytes(), "DATA00000004".as_bytes());
    device.reply_to("data".as_bytes(), "OKAY".as_bytes());
    let mut dev = Client::new(device);
    assert_eq!(Ok(()), dev.download("data".as_bytes()));
    assert_eq!(
        dev.io().sent(),
        &vec![b"download:00000004".to_vec(), b"data".to_vec()]
    );
}

#[test]
fn download_size_mismatch_sends_no_payload() {
    let mut device = ScriptedDevice::new();
    device.reply_to("download:00000004".as_bytes(), "DATA00000005".as_bytes());
    device.reply_to("data".as_bytes(), "OKAY".as_bytes());
    let mut dev = Client::new(device);
    assert_eq!(Err("unknown failure".to_owned()), dev.download("data".as_bytes()));
    assert_eq!(dev.io().sent(), &vec![b"download:00000004".to_vec()]);
}

#[test]
fn download_okay_to_announcement_is_unknown_failure() {
    let mut device = ScriptedDevice::new();
    device.reply_to("download:00000004".as_bytes(), "OKAY".as_bytes());
    let mut dev = Client::new(device);
    assert_eq!(Err("unknown failure".to_owned()), dev.download("data".as_bytes()));
    assert_eq!(dev.io().sent().len(), 1);
}

#[test]
fn download_payload_rejected() {
    let mut device = ScriptedDevice::new();
    device.reply_to("download:00000004".as_bytes(), "DATA00000004".as_bytes());
    device.reply_to("data".as_bytes(), "FAILbad image".as_bytes());
    let mut dev = Client::new(device);
    assert_eq!(Err("bad image".to_owned()), dev.download("data".as_bytes()));
}

#[test]
fn download_empty_payload_announces_zero() {
    let mut device = ScriptedDevice::new();
    device.reply_to("download:00000000".as_bytes(), "FAILempty".as_bytes());
    let mut dev = Client::new(device);
    assert_eq!(Err("empty".to_owned()), dev.download(&[]));
    assert_eq!(dev.io().sent(), &vec![b"download:00000000".to_vec()]);
}

#[test]
fn download_size_in_lowercase_hex() {
    let data = vec![7u8; 0xabc];
    let mut device = ScriptedDevice::new();
    device.reply_to("download:00000abc".as_bytes(), "DATA00000ABC".as_bytes());
    device.reply_to(&data, "OKAY".as_bytes());
    let mut dev = Client::new(device);
    assert_eq!(Ok(()), dev.download(&data));
}

#[test]
fn timeouts_before_reply_are_retried() {
    let mut device = ScriptedDevice::new();
    device.reply_to("getvar:version".as_bytes(), "OKAY1.0".as_bytes());
    device.time_out(25);
    let mut dev = Client::new(device);
    assert_eq!(Ok("1.0".to_owned()), dev.getvar("version"));
    assert_eq!(dev.io().sent().len(), 1);
}

#[test]
fn read_failure_aborts_without_retry() {
    let mut device = ScriptedDevice::new();
    device.reply_to("getvar:version".as_bytes(), "OKAY1.0".as_bytes());
    device.fail_reads("broken pipe");
    let mut dev = Client::new(device);
    assert_eq!(Err("broken pipe".to_owned()), dev.getvar("version"));
}

#[test]
fn timeouts_then_read_failure() {
    let mut device = ScriptedDevice::new();
    device.reply_to("reboot".as_bytes(), "OKAY".as_bytes());
    device.time_out(3);
    device.fail_reads("no device");
    let mut dev = Client::new(device);
    assert_eq!(Err("no device".to_owned()), dev.reboot());
}

#[test]
fn write_failure_is_fatal() {
    let device = ScriptedDevice::new();
    let mut dev = Client::new(device);
    assert_eq!(
        Err("no reply scripted for this command".to_owned()),
        dev.getvar("version")
    );
}

#[test]
fn later_script_replaces_earlier() {
    let mut device = ScriptedDevice::new();
    device.reply_to("getvar:slot".as_bytes(), "OKAYa".as_bytes());
    device.reply_to("getvar:slot".as_bytes(), "OKAYb".as_bytes());
    let mut dev = Client::new(device);
    assert_eq!(Ok("b".to_owned()), dev.getvar("slot"));
}

struct Chatty {
    timeouts: u32,
}

impl Transport for Chatty {
    fn write_all(&mut self, _data: &[u8]) -> Result<(), IoError> {
        Ok(())
    }

    fn read(&mut self, _max_len: usize) -> Result<Vec<u8>, IoError> {
        if self.timeouts > 0 {
            self.timeouts -= 1;
            return Err(IoError::TimedOut);
        }
        let mut reply = b"OKAY".to_vec();
        reply.extend(std::iter::repeat(b'x').take(100));
        Ok(reply)
    }
}

#[test]
fn long_reply_is_cut_to_one_frame() {
    let mut client = Client::new(Chatty { timeouts: 2 });
    assert_eq!(Ok("x".repeat(60)), client.getvar("anything"));
    assert_eq!(client.into_inner().timeouts, 0);
}

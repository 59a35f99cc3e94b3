use fang::ddc::{detect_external, open, read_current, read_luminance, supported_presets, Ddc};
use fang::runner::{CommandRunner, Runs};

#[test]
fn first_valid_display_is_the_external_monitor() {
    let out = "Invalid display\n   I2C bus: /dev/i2c-4\n\nDisplay 1\n   I2C bus: /dev/i2c-7\nDisplay 2\n";
    assert_eq!(detect_external(out), Some(1));
    assert_eq!(detect_external("Invalid display\n"), None);
    assert_eq!(detect_external("Display 300\nDisplay 3\n"), Some(3));
}

#[test]
fn capability_string_lists_color_presets() {
    let caps = "Model: X\nvcp(02 04 05 10 12 14(03 04 05 0B) 16 18)\n";
    assert_eq!(supported_presets(caps), vec![0x03, 0x04, 0x05, 0x0B]);
    assert_eq!(supported_presets("vcp(10 12)"), Vec::<u8>::new());
    assert_eq!(supported_presets("14(zz 05"), Vec::<u8>::new());
}

#[test]
fn current_value_is_the_last_token() {
    assert_eq!(read_current("VCP 14 SNC x05\n"), Some(0x05));
    assert_eq!(read_current("VCP 14 CNC 00 0b 00 04\n"), Some(0x04));
    assert_eq!(read_current(""), None);
}

struct Scripted {
    calls: Vec<(String, Vec<String>)>,
    replies: Vec<Result<String, String>>,
}

impl CommandRunner for Scripted {
    fn run(&mut self, program: &str, args: &Vec<String>) -> Result<String, String> {
        self.calls.push((program.to_string(), args.clone()));
        if self.replies.is_empty() {
            Err("failed".to_string())
        } else {
            self.replies.remove(0)
        }
    }
}

fn runs(replies: Vec<Result<String, String>>) -> Runs<Scripted> {
    Runs::new(Scripted { calls: Vec::new(), replies })
}

#[test]
fn discovery_offers_advertised_presets_and_sets_them() {
    let mut r = runs(vec![
        Ok(String::new()),
        Ok("Display 2\n".into()),
        Ok("vcp(14(04 05))".into()),
        Ok("VCP 14 SNC x04".into()),
        Ok("VCP 10 C 30 100".into()),
        Ok(String::new()),
    ]);
    let mut d: Ddc = open(false, &mut r);
    assert!(d.available());
    let values: Vec<u8> = d.presets().iter().map(|p| p.value).collect();
    assert_eq!(values, vec![0x04, 0x05]);
    assert_eq!(d.current(), Some(0x04));
    assert_eq!(r.runner.calls[2].1, vec!["-d", "2", "capabilities"]);

    assert!(d.set(&mut r, 0x07).unwrap_err().contains("unsupported color preset"));
    d.set(&mut r, 0x05).unwrap();
    assert_eq!(d.current(), Some(0x05));
    assert_eq!(r.runner.calls[4].1, vec!["-d", "2", "getvcp", "10", "--brief"]);
    assert_eq!(r.runner.calls[5].1, vec!["-d", "2", "setvcp", "14", "0x05"]);
    assert_eq!(d.brightness(), Some(30));
}

#[test]
fn failed_setvcp_keeps_the_cached_value() {
    let mut r = runs(vec![
        Ok(String::new()),
        Ok("Display 1\n".into()),
        Err("no caps".into()),
        Ok("VCP 14 SNC x0b".into()),
        Err("no luminance".into()),
        Err("busy".into()),
    ]);
    let mut d = open(false, &mut r);
    assert_eq!(d.presets().len(), 5);
    assert_eq!(d.current(), Some(0x0B));
    let err = d.set(&mut r, 0x03).unwrap_err();
    assert!(err.contains("setvcp failed"));
    assert_eq!(d.current(), Some(0x0B));
}

#[test]
fn no_monitor_and_mock() {
    let mut r = runs(vec![Ok(String::new()), Ok("Invalid display\n".into())]);
    let d = open(false, &mut r);
    assert!(!d.available());
    assert!(d.presets().is_empty());

    let mut m = open(true, &mut r);
    assert!(m.available());
    assert_eq!(m.presets().len(), 5);
    assert_eq!(m.current(), Some(0x04));
    m.set(&mut r, 0x0B).unwrap();
    assert_eq!(m.current(), Some(0x0B));
    assert_eq!(r.runner.calls.len(), 2);
}

#[test]
fn luminance_is_read_from_the_brief_answer() {
    assert_eq!(read_luminance("VCP 10 C 50 100\n"), Some((50, 100)));
    assert_eq!(read_luminance("VCP 10 C 120 255"), Some((120, 255)));
    assert_eq!(read_luminance("VCP 10 ERR"), None);
    assert_eq!(read_luminance("VCP 14 C 50 100"), None);
    assert_eq!(read_luminance("VCP 10 C 50 70000"), None);
}

#[test]
fn brightness_is_a_percentage_of_the_monitor_range() {
    let mut r = runs(vec![
        Ok(String::new()),
        Ok("Display 3\n".into()),
        Ok("vcp(10 14(04))".into()),
        Ok("VCP 14 SNC x04".into()),
        Ok("VCP 10 C 120 255".into()),
        Ok(String::new()),
        Err("busy".into()),
    ]);
    let mut d = open(false, &mut r);
    assert_eq!(d.brightness(), Some(47));
    assert_eq!(d.set_brightness(&mut r, 101), Err("monitor brightness must be 0..=100".to_string()));
    assert_eq!(r.runner.calls.len(), 5);
    d.set_brightness(&mut r, 50).unwrap();
    assert_eq!(r.runner.calls[5].1, vec!["-d", "3", "setvcp", "10", "128"]);
    assert_eq!(d.brightness(), Some(50));
    assert!(d.set_brightness(&mut r, 80).unwrap_err().contains("setvcp failed"));
    assert_eq!(d.brightness(), Some(50));
}

#[test]
fn brightness_without_luminance_or_monitor_is_refused() {
    let mut r = runs(vec![
        Ok(String::new()),
        Ok("Display 1\n".into()),
        Ok(String::new()),
        Ok("VCP 14 SNC x04".into()),
        Err("unsupported feature".into()),
    ]);
    let mut d = open(false, &mut r);
    assert_eq!(d.brightness(), None);
    assert_eq!(
        d.set_brightness(&mut r, 40),
        Err("monitor does not report brightness over DDC/CI".to_string())
    );
    let mut none = open(false, &mut runs(vec![Ok(String::new()), Ok("Invalid display\n".into())]));
    assert_eq!(none.set_brightness(&mut r, 40), Err("no external DDC/CI monitor".to_string()));
    let mut m = open(true, &mut r);
    assert_eq!(m.brightness(), Some(100));
    m.set_brightness(&mut r, 35).unwrap();
    assert_eq!(m.brightness(), Some(35));
}

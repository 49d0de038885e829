use jack_midi_sink::cli::{Opt, Verbosity};
use jack_midi_sink::command::Msg;
use jack_midi_sink::render::render_raw;

#[test]
fn msg_reads_words_in_any_case() {
    assert_eq!(Msg::parse("up"), Ok(Msg::Up));
    assert_eq!(Msg::parse("UP"), Ok(Msg::Up));
    assert_eq!(Msg::parse("Down"), Ok(Msg::Down));
    assert_eq!("dOwN".parse::<Msg>(), Ok(Msg::Down));
}

#[test]
fn msg_rejects_other_words() {
    assert_eq!(Msg::parse("upp"), Err("unrecognised command"));
    assert_eq!(Msg::parse(""), Err("unrecognised command"));
    assert_eq!(Msg::parse("down "), Err("unrecognised command"));
    assert_eq!("sideways".parse::<Msg>(), Err("unrecognised command"));
}

#[test]
fn log_level_follows_verbosity() {
    let level = |v: u32| Opt { verbosity: v, jack_name: "jack-midi-sink".to_string() }.log_level();
    assert_eq!(level(0), Verbosity::Info);
    assert_eq!(level(1), Verbosity::Debug);
    assert_eq!(level(2), Verbosity::Trace);
    assert_eq!(level(u32::MAX), Verbosity::Trace);
}

#[test]
fn raw_bytes_render_as_hex() {
    assert_eq!(render_raw(&[0x90, 0x3c, 0x40]), "[90, 3c, 40]");
    assert_eq!(render_raw(&[]), "[]");
    assert_eq!(render_raw(&[0x0, 0xf, 0x10, 0xff]), "[0, f, 10, ff]");
}

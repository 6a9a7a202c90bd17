use unixbar::bar::{BarAction, BarEvent, UnixBar};
use unixbar::data::Format;
use unixbar::dzen2::Dzen2;
use unixbar::i3bar::I3Bar;
use unixbar::lemonbar::Lemonbar;
use unixbar::music::MPRISMusic;

fn music_widget(text: &str) -> MPRISMusic {
    let mut w = MPRISMusic::new();
    w.set_value(Format::Str(text.to_string()));
    w
}

#[test]
fn render_follows_registration_order() {
    let mut bar: UnixBar<Dzen2, MPRISMusic> = UnixBar::new(Dzen2);
    bar.add(music_widget("left"));
    bar.add(music_widget("right"));
    // Whichever widget changed last, the line is left-to-right in
    // registration order.
    bar.widgets[1].set_value(Format::Str("RIGHT".to_string()));
    assert_eq!(bar.show_line(), "left | RIGHT");
    bar.widgets[0].set_value(Format::Str("LEFT".to_string()));
    assert_eq!(bar.show_line(), "LEFT | RIGHT");
}

#[test]
fn render_strips_newlines() {
    let mut bar: UnixBar<Dzen2, MPRISMusic> = UnixBar::new(Dzen2);
    bar.add(music_widget("a\nb\n"));
    assert_eq!(bar.show_line(), "ab");
}

#[test]
fn empty_bar_renders_valid_empty_line() {
    let bar: UnixBar<I3Bar, MPRISMusic> = UnixBar::new(I3Bar);
    assert_eq!(bar.show_line(), "[]");
}

#[test]
fn unavailable_widget_renders_identically_between_changes() {
    let mut bar: UnixBar<I3Bar, MPRISMusic> = UnixBar::new(I3Bar);
    bar.add(MPRISMusic::new());
    bar.add(music_widget("other"));
    let first = bar.show_line();
    // The other widget changes; the unavailable widget's segment must stay
    // byte-identical.
    bar.widgets[1].set_value(Format::Str("changed".to_string()));
    let second = bar.show_line();
    assert_eq!(first, "[{\"full_text\":\"\"},{\"full_text\":\"other\"}]");
    assert_eq!(second, "[{\"full_text\":\"\"},{\"full_text\":\"changed\"}]");
    bar.widgets[0].set_value(Format::Str("now playing".to_string()));
    assert_eq!(
        bar.show_line(),
        "[{\"full_text\":\"now playing\"},{\"full_text\":\"changed\"}]"
    );
}

#[test]
fn register_returns_stable_slots() {
    let mut bar: UnixBar<I3Bar, MPRISMusic> = UnixBar::new(I3Bar);
    assert_eq!(bar.register_fn("next"), 0);
    assert_eq!(bar.register_fn("prev"), 1);
    // Re-registering overwrites: same slot, no new one.
    assert_eq!(bar.register_fn("next"), 0);
    assert_eq!(bar.register_fn("toggle"), 2);
}

#[test]
fn click_record_dispatches_registered_callback_once() {
    let mut bar: UnixBar<I3Bar, MPRISMusic> = UnixBar::new(I3Bar);
    let next = bar.register_fn("next");
    let mut calls = 0;
    let mut callbacks: Vec<Box<dyn FnMut()>> = Vec::new();
    callbacks.push(Box::new(|| {}));
    callbacks[next] = Box::new(|| calls += 1);
    if let Some(slot) = bar.handle_stdin(Some("{\"name\": \"next\", \"button\": 1}")) {
        (callbacks[slot])();
    }
    drop(callbacks);
    assert_eq!(calls, 1);
}

#[test]
fn other_lines_dispatch_nothing() {
    let mut bar: UnixBar<I3Bar, MPRISMusic> = UnixBar::new(I3Bar);
    bar.register_fn("next");
    assert!(bar.handle_stdin(None).is_none());
    assert!(bar.handle_stdin(Some("")).is_none());
    assert!(bar.handle_stdin(Some("next")).is_none());
    assert!(bar.handle_stdin(Some("{\"name\":\"unknown\"}")).is_none());
    assert!(bar.handle_stdin(Some("{\"button\":1}")).is_none());
    assert!(bar.handle_stdin(Some("not json at all")).is_none());
}

#[test]
fn raw_token_dispatch() {
    let mut bar: UnixBar<Lemonbar, MPRISMusic> = UnixBar::new(Lemonbar);
    let slot = bar.register_fn("toggle");
    assert_eq!(bar.handle_stdin(Some("toggle\n")), Some(slot));
    assert!(bar.handle_stdin(Some("pause\n")).is_none());
}

#[test]
fn step_maps_events_to_actions() {
    let mut bar: UnixBar<I3Bar, MPRISMusic> = UnixBar::new(I3Bar);
    let slot = bar.register_fn("next");
    assert!(matches!(bar.step(&BarEvent::Refresh), BarAction::Render));
    assert!(matches!(bar.step(&BarEvent::Input(None)), BarAction::Ignore));
    let click = "{\"name\":\"next\",\"button\":1}".to_string();
    match bar.step(&BarEvent::Input(Some(click))) {
        BarAction::Invoke(s) => assert_eq!(s, slot),
        _ => panic!("a click naming a registered command must invoke it"),
    }
    let junk = "{\"name\":\"stop\"}".to_string();
    assert!(matches!(bar.step(&BarEvent::Input(Some(junk))), BarAction::Ignore));
}

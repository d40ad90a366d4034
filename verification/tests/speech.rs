use air_mouse::settings::VOICE_COOLDOWN;
use air_mouse::controller::{Controller, VoiceStep};
use air_mouse::report::{voice_effect, ShutdownEffect};
use air_mouse::shutdown::ShutdownAnswer;
use air_mouse::voice::{
    match_voice_command, says_command, sort_characters, split_words, Glyph, VoiceEvent, VoiceState,
    VoiceVerdict,
};

#[test]
fn voice_command_matches() {
    assert!(match_voice_command("shutdown now"));
    assert!(match_voice_command("SHUTDOWN NOW"));
    assert!(match_voice_command("Shutdown, now!"));
    assert!(match_voice_command("please shutdown now"));
    assert!(match_voice_command("shutdown now please"));
    // Vosk may split it as two tokens or hear adjacent words.
    assert!(match_voice_command("the shutdown now thing"));
}

#[test]
fn voice_command_rejects_near_misses() {
    assert!(!match_voice_command("shutdown"));
    assert!(!match_voice_command("now"));
    assert!(!match_voice_command("shut down"));
    assert!(!match_voice_command("shutdown the laptop now is off"));
    assert!(!match_voice_command("how about shutting down"));
    assert!(!match_voice_command(""));
}

#[test]
fn split_command_matches_too() {
    assert!(match_voice_command("shut down now"));
    assert!(match_voice_command("Please: SHUT DOWN, NOW."));
    assert!(!match_voice_command("shut the door down now"));
    assert!(!match_voice_command("shut down later"));
}

#[test]
fn command_among_repeated_words() {
    assert!(match_voice_command("shutdown shutdown now"));
    assert!(match_voice_command("now shutdown now"));
    assert!(match_voice_command("shut shut down now"));
    assert!(!match_voice_command("now shutdown"));
    assert!(!match_voice_command("shutdownnow"));
}

#[test]
fn unicode_is_lowered_sorted_and_split() {
    assert_eq!(
        sort_characters("a\u{a0}1,\u{e9}"),
        vec![Glyph::Letter('a'), Glyph::Space, Glyph::Letter('1'), Glyph::Other, Glyph::Letter('\u{e9}')]
    );
    // A no-break space separates words; the Kelvin sign is no command letter.
    assert!(match_voice_command("shutdown\u{a0}\u{2003}now"));
    assert!(match_voice_command("shut\u{2019}down now"));
    assert!(!match_voice_command("shutdown no\u{212a}w"));
}

#[test]
fn glyphs_become_words() {
    let letter = Glyph::Letter;
    let glyphs = vec![
        Glyph::Space,
        letter('n'),
        Glyph::Other,
        letter('o'),
        Glyph::Space,
        Glyph::Space,
        letter('w'),
    ];
    assert_eq!(split_words(&glyphs), vec![vec!['n', 'o'], vec!['w']]);
    assert!(split_words(&vec![Glyph::Other, Glyph::Space]).is_empty());
}

#[test]
fn words_make_a_command() {
    let words = |text: &str| -> Vec<Vec<char>> {
        text.split(' ').map(|w| w.chars().collect()).collect()
    };
    assert!(says_command(&words("a shutdown now b")));
    assert!(says_command(&words("shut down now")));
    assert!(!says_command(&words("shutdown")));
    assert!(!says_command(&words("shutdow now")));
    assert!(!says_command(&words("shutdowns now")));
    assert!(!says_command(&vec![]));
}

fn event(text: &str, partial: bool) -> VoiceEvent {
    VoiceEvent { text: text.to_string(), partial }
}

#[test]
fn voice_cooldown_blocks_double_fire() {
    let mut c = Controller::new(0);
    let t = 77;
    assert_eq!(c.handle_voice_event(&event("hello", false), t), VoiceStep::Unmatched);
    assert_eq!(c.voice.last_shutdown, None);
    // The partial text fires; the final one that follows does not.
    assert_eq!(c.handle_voice_event(&event("shutdown now", true), t), VoiceStep::Countdown);
    assert_eq!(c.voice.last_shutdown, Some(t));
    assert_eq!(
        c.handle_voice_event(&event("shutdown now", false), t + VOICE_COOLDOWN - 1),
        VoiceStep::Cooling
    );
    assert_eq!(c.handle_voice_event(&event("hello", false), t + 1), VoiceStep::Cooling);
    assert_eq!(
        c.handle_voice_event(&event("Shutdown now", false), t + VOICE_COOLDOWN),
        VoiceStep::Countdown
    );
    assert_eq!(c.voice.last_shutdown, Some(t + VOICE_COOLDOWN));
}

#[test]
fn verdict_on_a_matched_utterance() {
    let mut voice = VoiceState { last_shutdown: None };
    assert_eq!(voice.decide(false, 5), VoiceVerdict::Unmatched);
    assert_eq!(voice.decide(true, 5), VoiceVerdict::ShutDown);
    assert_eq!(voice.decide(false, 6), VoiceVerdict::Cooling);
    assert_eq!(voice.decide(true, 5 + VOICE_COOLDOWN), VoiceVerdict::ShutDown);
}

#[test]
fn spoken_shutdown_starts_the_gesture_over() {
    let mut c = Controller::new(0);
    c.claps.count = 2;
    c.claps.last_clap = 1_000_000_000;
    c.claps.window_since = Some(1_000_000_000);
    let now = 1_100_000_000;
    assert_eq!(c.hear(true, now), VoiceStep::Countdown);
    // The gesture is left alone until the countdown has passed.
    assert!(c.claps.is_waiting());
    let step = c.resume_voice(VoiceStep::Countdown, ShutdownAnswer::Performed, now + 9);
    assert_eq!(step, VoiceStep::PowerOff);
    assert!(!c.claps.is_waiting());
    assert_eq!((c.claps.count, c.claps.last_shutdown), (0, Some(now + 9)));
    assert_eq!(c.resume_voice(step, ShutdownAnswer::Performed, now + 10), VoiceStep::Done);
    // A countdown that did not pass powers nothing off.
    let mut c = Controller::new(0);
    c.hear(true, now);
    let step = c.resume_voice(VoiceStep::Countdown, ShutdownAnswer::Failed, now + 9);
    assert_eq!((step, c.claps.last_shutdown), (VoiceStep::Done, None));
}

#[test]
fn dry_run_reports_spoken_shutdown() {
    assert_eq!(voice_effect(VoiceStep::Countdown, true), ShutdownEffect::Report);
    assert_eq!(voice_effect(VoiceStep::PowerOff, true), ShutdownEffect::Nothing);
    assert_eq!(voice_effect(VoiceStep::Countdown, false), ShutdownEffect::CountDown);
    assert_eq!(voice_effect(VoiceStep::PowerOff, false), ShutdownEffect::PowerOff);
    assert_eq!(voice_effect(VoiceStep::Unmatched, false), ShutdownEffect::Nothing);
}

#[test]
fn ascii_case_and_punctuation_do_not_matter() {
    for text in ["shutdown now", "shut down now", "hello there", "shutdown \u{3a3} now"] {
        let expected = match_voice_command(text);
        let mut noisy = String::new();
        for (i, c) in text.chars().enumerate() {
            noisy.push(if i % 2 == 0 { c.to_ascii_uppercase() } else { c });
            noisy.push(['.', '\'', '-', '!', '_', '\u{1}'][i % 6]);
        }
        assert_eq!(match_voice_command(&noisy), expected, "{noisy:?}");
    }
}

/// What the library says of the standard library's characters, over all of ASCII and
/// all white space.
#[test]
fn characters_are_those_of_the_standard_library() {
    let glyph = |c: char| sort_characters(&c.to_string())[0];
    for n in 0u32..0x80 {
        let c = char::from_u32(n).unwrap();
        let expected = if c.is_ascii_whitespace() || n == 0x0b {
            Glyph::Space
        } else if c.is_ascii_alphanumeric() {
            Glyph::Letter(c)
        } else {
            Glyph::Other
        };
        assert_eq!(glyph(c), expected, "{n:x}");
        assert_eq!(c.to_string().to_lowercase(), c.to_ascii_lowercase().to_string());
    }
    let spaces: Vec<u32> =
        (0u32..0x11_0000).filter(|n| char::from_u32(*n).is_some_and(|c| c.is_whitespace())).collect();
    let mut expected: Vec<u32> = (0x09..=0x0d).collect();
    expected.extend([0x20, 0x85, 0xa0, 0x1680]);
    expected.extend(0x2000..=0x200a);
    expected.extend([0x2028, 0x2029, 0x202f, 0x205f, 0x3000]);
    assert_eq!(spaces, expected);
    assert_eq!(glyph('\u{3c3}'), Glyph::Letter('\u{3c3}'));
    assert_eq!(glyph('\u{3c2}'), Glyph::Letter('\u{3c2}'));
    // Lower case goes character by character, but for the capital sigma.
    for n in (0x80u32..0x11_0000).filter(|n| *n != 0x3a3) {
        if let Some(c) = char::from_u32(n) {
            let alone = c.to_string().to_lowercase();
            assert_eq!(format!("aS{c}Z").to_lowercase(), format!("as{alone}z"));
        }
    }
    assert_eq!("A\u{3a3}".to_lowercase(), "a\u{3c2}");
    assert_eq!("A\u{3a3}B".to_lowercase(), "a\u{3c3}b");
}

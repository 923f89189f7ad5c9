use glimbot::engine::{is_exempt, plan_action};
use glimbot::moderation::{ActionKind, ModAction};
use glimbot::weights::SpamConfig;

#[test]
fn action_kinds_have_their_names() {
    assert_eq!(ActionKind::Warn.name(), "warning");
    assert_eq!(ActionKind::Kick.name(), "kick");
    assert_eq!(ActionKind::SoftBan.name(), "soft ban");
    assert_eq!(ActionKind::Ban.name(), "ban");
    assert_eq!(ActionKind::Mute.name(), "mute");
}

#[test]
fn action_kinds_have_their_title_names() {
    assert_eq!(ActionKind::Warn.title_name(), "Warning");
    assert_eq!(ActionKind::Kick.title_name(), "Kick");
    assert_eq!(ActionKind::SoftBan.title_name(), "Soft ban");
    assert_eq!(ActionKind::Ban.title_name(), "Ban");
    assert_eq!(ActionKind::Mute.title_name(), "Mute");
}

#[test]
fn only_bans_and_mutes_carry_a_duration() {
    assert!(!ActionKind::Warn.has_duration());
    assert!(!ActionKind::Kick.has_duration());
    assert!(!ActionKind::SoftBan.has_duration());
    assert!(ActionKind::Ban.has_duration());
    assert!(ActionKind::Mute.has_duration());
}

#[test]
fn action_builders_fill_each_field() {
    let a = ModAction::new(10, 20, 30, 40, ActionKind::Ban);
    assert_eq!(a.guild(), 10);
    assert_eq!(a.user(), 20);
    assert_eq!(a.channel(), 30);
    assert_eq!(a.moderator(), 40);
    assert_eq!(a.action(), ActionKind::Ban);
    assert!(a.reason().is_none());
    assert!(a.original_message().is_none());
    assert!(a.duration().is_none());

    let a = a
        .with_duration(Some(5_000_000))
        .with_reason("Spam")
        .with_original_message(77);
    assert_eq!(a.duration(), Some(5_000_000));
    assert_eq!(a.reason().clone().unwrap(), "Spam");
    assert_eq!(a.original_message(), Some(77));
    assert_eq!(a.guild(), 10);
}

#[test]
fn exemption_checks_follow_the_ordered_policy() {
    assert!(is_exempt(true, Some(false), Some(false)));
    assert!(is_exempt(false, Some(true), None));
    assert!(is_exempt(false, None, Some(true)));
    assert!(!is_exempt(false, None, None));
    assert!(!is_exempt(false, Some(false), Some(false)));
}

#[test]
fn moderator_role_holder_is_exempt() {
    let conf = SpamConfig::default();
    assert!(plan_action(&conf, 1, 2, 3, 4, 5, false, Some(true), Some(false)).is_none());
}

#[test]
fn zero_timeout_means_an_indefinite_mute() {
    let conf = SpamConfig { silence_timeout: 0, ..SpamConfig::default() };
    let a = plan_action(&conf, 1, 2, 3, 4, 5, false, None, None).expect("actionable");
    assert!(a.duration().is_none());
    assert_eq!(a.action(), ActionKind::Mute);

    let timed = SpamConfig { silence_timeout: 60_000_000, ..SpamConfig::default() };
    let b = plan_action(&timed, 1, 2, 3, 4, 5, false, None, None).expect("actionable");
    assert_eq!(b.duration(), Some(60_000_000));
}

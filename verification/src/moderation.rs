//! Moderation action records.
//!
//! A breach that survives the exemption checks produces a [`ModAction`]
//! record; an external dispatcher applies it to the platform and writes the
//! audit entry. Platform identities are carried as plain ids.

use vstd::prelude::*;

verus! {

/// The kind of moderation action taken against a user.
#[derive(Clone, Copy, Debug, PartialEq, Eq, Structural)]
pub enum ActionKind {
    /// Warn a user and note it in the mod log.
    Warn,
    /// Kick a user from the guild.
    Kick,
    /// Ban and immediately unban a user, deleting recent messages.
    SoftBan,
    /// Ban a user from the guild.
    Ban,
    /// Assign the muted role to a user.
    Mute,
}

impl ActionKind {
    /// The lowercase name of the action, as used in running text.
    pub fn name(&self) -> (r: &'static str)
        ensures
            r@ == self.name_spec(),
    {
        match self {
            ActionKind::Warn => "warning",
            ActionKind::Kick => "kick",
            ActionKind::SoftBan => "soft ban",
            ActionKind::Ban => "ban",
            ActionKind::Mute => "mute",
        }
    }

    /// What [`ActionKind::name`] returns.
    pub open spec fn name_spec(self) -> Seq<char> {
        match self {
            ActionKind::Warn => "warning"@,
            ActionKind::Kick => "kick"@,
            ActionKind::SoftBan => "soft ban"@,
            ActionKind::Ban => "ban"@,
            ActionKind::Mute => "mute"@,
        }
    }

    /// The capitalised name of the action, as used in a report title.
    pub fn title_name(&self) -> (r: &'static str)
        ensures
            r@ == self.title_name_spec(),
    {
        match self {
            ActionKind::Warn => "Warning",
            ActionKind::Kick => "Kick",
            ActionKind::SoftBan => "Soft ban",
            ActionKind::Ban => "Ban",
            ActionKind::Mute => "Mute",
        }
    }

    /// What [`ActionKind::title_name`] returns.
    pub open spec fn title_name_spec(self) -> Seq<char> {
        match self {
            ActionKind::Warn => "Warning"@,
            ActionKind::Kick => "Kick"@,
            ActionKind::SoftBan => "Soft ban"@,
            ActionKind::Ban => "Ban"@,
            ActionKind::Mute => "Mute"@,
        }
    }

    /// Whether the action can carry a duration: only bans and mutes do.
    pub fn has_duration(&self) -> (r: bool)
        ensures
            r == (self is Ban || self is Mute),
    {
        match self {
            ActionKind::Ban | ActionKind::Mute => true,
            _ => false,
        }
    }
}

/// One moderation action to be applied by the external dispatcher.
#[derive(Clone, Debug)]
pub struct ModAction {
    user: u64,
    guild: u64,
    action: ActionKind,
    moderator: u64,
    channel: u64,
    reason: Option<String>,
    original_message: Option<u64>,
    duration: Option<u64>,
}

impl ModAction {
    /// The reason attached to the action, as a character sequence.
    pub open spec fn reason_chars(self) -> Option<Seq<char>> {
        match self.spec_reason() {
            Some(s) => Some(s@),
            None => None,
        }
    }

    /// The reason field as stored.
    pub closed spec fn spec_reason(self) -> Option<String> {
        self.reason
    }

    /// The user the action applies to.
    pub fn user(&self) -> (r: u64)
        ensures
            r == self.spec_user(),
    {
        self.user
    }

    /// Spec-level user id.
    pub closed spec fn spec_user(self) -> u64 {
        self.user
    }

    /// The kind of action to apply.
    pub fn action(&self) -> (r: ActionKind)
        ensures
            r == self.spec_action(),
    {
        self.action
    }

    /// Spec-level action kind.
    pub closed spec fn spec_action(self) -> ActionKind {
        self.action
    }

    /// The moderator the action is attributed to; for automatic actions,
    /// the bot identity.
    pub fn moderator(&self) -> (r: u64)
        ensures
            r == self.spec_moderator(),
    {
        self.moderator
    }

    /// Spec-level moderator id.
    pub closed spec fn spec_moderator(self) -> u64 {
        self.moderator
    }

    /// The channel the triggering message was seen in.
    pub fn channel(&self) -> (r: u64)
        ensures
            r == self.spec_channel(),
    {
        self.channel
    }

    /// Spec-level channel id.
    pub closed spec fn spec_channel(self) -> u64 {
        self.channel
    }

    /// The reason attached to the action, if any.
    pub fn reason(&self) -> (r: &Option<String>)
        ensures
            *r == self.spec_reason(),
    {
        &self.reason
    }

    /// The message that provoked the action, if recorded.
    pub fn original_message(&self) -> (r: Option<u64>)
        ensures
            r == self.spec_original_message(),
    {
        self.original_message
    }

    /// Spec-level originating message id.
    pub closed spec fn spec_original_message(self) -> Option<u64> {
        self.original_message
    }

    /// How long the action lasts, in microseconds; `None` means indefinite.
    pub fn duration(&self) -> (r: Option<u64>)
        ensures
            r == self.spec_duration(),
    {
        self.duration
    }

    /// Spec-level duration.
    pub closed spec fn spec_duration(self) -> Option<u64> {
        self.duration
    }

    /// The guild the action applies in.
    pub fn guild(&self) -> (r: u64)
        ensures
            r == self.spec_guild(),
    {
        self.guild
    }

    /// Spec-level guild id.
    pub closed spec fn spec_guild(self) -> u64 {
        self.guild
    }

    /// A fresh action record against `user` in `guild`, with no reason,
    /// no originating message and no duration attached yet.
    pub fn new(guild: u64, user: u64, channel: u64, moderator: u64, action: ActionKind) -> (r:
        ModAction)
        ensures
            r.spec_guild() == guild,
            r.spec_user() == user,
            r.spec_channel() == channel,
            r.spec_moderator() == moderator,
            r.spec_action() == action,
            r.spec_reason() is None,
            r.spec_original_message() is None,
            r.spec_duration() is None,
    {
        ModAction {
            user,
            guild,
            action,
            moderator,
            channel,
            reason: None,
            original_message: None,
            duration: None,
        }
    }

    /// Replaces the duration; `None` means indefinite.
    pub fn with_duration(self, duration: Option<u64>) -> (r: ModAction)
        ensures
            r.spec_duration() == duration,
            r.spec_guild() == self.spec_guild(),
            r.spec_user() == self.spec_user(),
            r.spec_channel() == self.spec_channel(),
            r.spec_moderator() == self.spec_moderator(),
            r.spec_action() == self.spec_action(),
            r.spec_reason() == self.spec_reason(),
            r.spec_original_message() == self.spec_original_message(),
    {
        ModAction { duration, ..self }
    }

    /// Replaces the reason.
    pub fn with_reason(self, reason: &str) -> (r: ModAction)
        ensures
            r.reason_chars() == Some(reason@),
            r.spec_guild() == self.spec_guild(),
            r.spec_user() == self.spec_user(),
            r.spec_channel() == self.spec_channel(),
            r.spec_moderator() == self.spec_moderator(),
            r.spec_action() == self.spec_action(),
            r.spec_duration() == self.spec_duration(),
            r.spec_original_message() == self.spec_original_message(),
    {
        ModAction { reason: Some(reason.to_owned()), ..self }
    }

    /// Records the message that provoked the action.
    pub fn with_original_message(self, message: u64) -> (r: ModAction)
        ensures
            r.spec_original_message() == Some(message),
            r.spec_guild() == self.spec_guild(),
            r.spec_user() == self.spec_user(),
            r.spec_channel() == self.spec_channel(),
            r.spec_moderator() == self.spec_moderator(),
            r.spec_action() == self.spec_action(),
            r.spec_reason() == self.spec_reason(),
            r.spec_duration() == self.spec_duration(),
    {
        ModAction { original_message: Some(message), ..self }
    }
}

} // verus!

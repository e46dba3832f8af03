//! Where an alert goes: always to the Discord bridge, and by e-mail outside
//! the `dev` environment when a recipient and an SMTP host are configured.
//! The settings come from the environment; an unset variable takes its
//! default.

use vstd::prelude::*;

verus! {

/// Whether `lettre` parses the text as a mailbox (`str::parse::<Mailbox>`).
pub uninterp spec fn mailbox_accepted(text: Seq<char>) -> bool;

/// Calls `str::parse::<lettre::message::Mailbox>` and reports whether it
/// returned `Ok`; the answer is a function of the text alone, named
/// `mailbox_accepted`.
#[verifier::external_body]
fn parses_as_mailbox(text: &str) -> (ok: bool)
    ensures
        ok == mailbox_accepted(text@),
{
    text.parse::<lettre::message::Mailbox>().is_ok()
}

/// The alert settings as read from the environment (`None` when a variable
/// is not set).
pub struct AlertSettings {
    /// `ENV`
    pub env: Option<String>,
    /// `DISCORD_BRIDGE_URL`
    pub discord_url: Option<String>,
    /// `DISCORD_BRIDGE_SECRET`
    pub discord_secret: Option<String>,
    /// `DISCORD_CHANNEL`
    pub discord_channel: Option<String>,
    /// `ALERT_EMAIL_TO`
    pub email_to: Option<String>,
    /// `SMTP_HOST`
    pub smtp_host: Option<String>,
    /// `SMTP_USER`
    pub smtp_user: Option<String>,
    /// `SMTP_PASS`
    pub smtp_pass: Option<String>,
}

/// The announcement posted to the Discord bridge.
pub struct DiscordNotice {
    pub url: String,
    /// The value of the `Authorization` header.
    pub authorization: String,
    pub content: String,
    pub channel: String,
}

/// The e-mail to send through the SMTP relay.
pub struct EmailNotice {
    pub from: String,
    pub to: String,
    pub subject: String,
    pub body: String,
    pub smtp_host: String,
    pub smtp_user: String,
    pub smtp_pass: String,
}

/// What to do about e-mail.
pub enum EmailPlan {
    /// No e-mail: the environment is `dev`, or no recipient or host is set.
    Skip,
    /// An e-mail was due, but the sender or the recipient is not a valid
    /// mailbox.
    BadAddress,
    Send(EmailNotice),
}

/// Everything an alert sends.
pub struct AlertPlan {
    pub discord: DiscordNotice,
    pub email: EmailPlan,
}

/// The setting, or its default when it is not set.
pub open spec fn setting_or(s: Option<String>, default: Seq<char>) -> Seq<char> {
    match s {
        Some(v) => v@,
        None => default,
    }
}

/// The text of the Discord announcement.
pub open spec fn alert_text() -> Seq<char> {
    "\u{1F6A8} **AzerothCore Alert!** \u{1F6A8}\nOne or more metrics have exceeded the safe threshold. Please check the dashboard immediately."@
}

/// Whether an e-mail is due for these settings.
pub open spec fn email_due(s: AlertSettings) -> bool {
    &&& setting_or(s.env, "dev"@) != "dev"@
    &&& setting_or(s.email_to, Seq::empty()).len() > 0
    &&& setting_or(s.smtp_host, Seq::empty()).len() > 0
}

/// The sender of the alert e-mail: `alerts@` at the SMTP host.
pub open spec fn sender_address(s: AlertSettings) -> Seq<char> {
    "alerts@"@ + setting_or(s.smtp_host, Seq::empty())
}

/// `n` is the Discord announcement for settings `s`.
pub open spec fn discord_notice_for(n: DiscordNotice, s: AlertSettings) -> bool {
    &&& n.url@ == setting_or(s.discord_url, "http://localhost:8080/api/v1/announce"@)
    &&& n.authorization@ == "Bearer "@ + setting_or(s.discord_secret, "super_secret_key_123"@)
    &&& n.content@ == alert_text()
    &&& n.channel@ == setting_or(s.discord_channel, "alerts"@)
}

/// `p` is the e-mail plan for settings `s`.
pub open spec fn email_plan_for(p: EmailPlan, s: AlertSettings) -> bool {
    if !email_due(s) {
        p is Skip
    } else if mailbox_accepted(sender_address(s)) && mailbox_accepted(
        setting_or(s.email_to, Seq::empty()),
    ) {
        match p {
            EmailPlan::Send(e) => {
                &&& e.from@ == sender_address(s)
                &&& e.to@ == setting_or(s.email_to, Seq::empty())
                &&& e.subject@ == "AzerothCore Dashboard Alert"@
                &&& e.body@ == "Alert thresholds exceeded on the dashboard! Please check immediately."@
                &&& e.smtp_host@ == setting_or(s.smtp_host, Seq::empty())
                &&& e.smtp_user@ == setting_or(s.smtp_user, Seq::empty())
                &&& e.smtp_pass@ == setting_or(s.smtp_pass, Seq::empty())
            },
            _ => false,
        }
    } else {
        p is BadAddress
    }
}

fn or_default(s: Option<String>, default: &str) -> (v: String)
    ensures
        v@ == setting_or(s, default@),
{
    match s {
        Some(v) => v,
        None => String::from_str(default),
    }
}

/// Plans what an alert sends for the given settings.
pub fn plan_alerts(settings: AlertSettings) -> (plan: AlertPlan)
    ensures
        discord_notice_for(plan.discord, settings),
        email_plan_for(plan.email, settings),
{
    let ghost s = settings;
    let AlertSettings {
        env,
        discord_url,
        discord_secret,
        discord_channel,
        email_to,
        smtp_host,
        smtp_user,
        smtp_pass,
    } = settings;
    let env = or_default(env, "dev");
    let url = or_default(discord_url, "http://localhost:8080/api/v1/announce");
    let secret = or_default(discord_secret, "super_secret_key_123");
    let mut authorization = String::from_str("Bearer ");
    authorization.append(secret.as_str());
    let discord = DiscordNotice {
        url,
        authorization,
        content: String::from_str(
            "\u{1F6A8} **AzerothCore Alert!** \u{1F6A8}\nOne or more metrics have exceeded the safe threshold. Please check the dashboard immediately.",
        ),
        channel: or_default(discord_channel, "alerts"),
    };
    let dev = String::from_str("dev");
    if env == dev {
        return AlertPlan { discord, email: EmailPlan::Skip };
    }
    let to = or_default(email_to, "");
    let host = or_default(smtp_host, "");
    proof {
        reveal_strlit("");
    }
    if to.as_str().is_empty() || host.as_str().is_empty() {
        return AlertPlan { discord, email: EmailPlan::Skip };
    }
    let mut from = String::from_str("alerts@");
    from.append(host.as_str());
    assert(""@ == Seq::<char>::empty());
    assert(email_due(s));
    if parses_as_mailbox(from.as_str()) && parses_as_mailbox(to.as_str()) {
        let email = EmailNotice {
            from,
            to,
            subject: String::from_str("AzerothCore Dashboard Alert"),
            body: String::from_str(
                "Alert thresholds exceeded on the dashboard! Please check immediately.",
            ),
            smtp_host: host,
            smtp_user: or_default(smtp_user, ""),
            smtp_pass: or_default(smtp_pass, ""),
        };
        AlertPlan { discord, email: EmailPlan::Send(email) }
    } else {
        AlertPlan { discord, email: EmailPlan::BadAddress }
    }
}

/// Law: in the `dev` environment (the default when `ENV` is unset) no
/// e-mail is ever planned, whatever else is configured.
pub proof fn law_no_email_in_dev(p: EmailPlan, s: AlertSettings)
    requires
        setting_or(s.env, "dev"@) == "dev"@,
        email_plan_for(p, s),
    ensures
        p is Skip,
{
}

/// Law: an e-mail is sent only when one is due and both its sender and its
/// recipient are valid mailboxes.
pub proof fn law_email_needs_valid_addresses(p: EmailPlan, s: AlertSettings)
    requires
        email_plan_for(p, s),
        p is Send,
    ensures
        email_due(s),
        mailbox_accepted(sender_address(s)),
        mailbox_accepted(setting_or(s.email_to, Seq::empty())),
{
}

/// Law: whenever `ENV` is set to anything but `dev`, a recipient and an SMTP
/// host are set and nonempty, and both the sender `alerts@<host>` and the
/// recipient are valid mailboxes, the plan sends the e-mail from
/// `alerts@<host>` to the recipient through that host.
pub proof fn law_email_sent_outside_dev(p: EmailPlan, s: AlertSettings)
    requires
        email_plan_for(p, s),
        s.env matches Some(e) && e@ != "dev"@,
        s.email_to matches Some(to) && to@.len() > 0,
        s.smtp_host matches Some(h) && h@.len() > 0,
        mailbox_accepted("alerts@"@ + s.smtp_host->0@),
        mailbox_accepted(s.email_to->0@),
    ensures
        p matches EmailPlan::Send(m) && m.from@ == "alerts@"@ + s.smtp_host->0@ && m.to@
            == s.email_to->0@ && m.smtp_host@ == s.smtp_host->0@,
{
}

/// Law: no e-mail is sent unless `ENV` is set to something other than `dev`
/// and both a recipient and an SMTP host are set and nonempty.
pub proof fn law_email_needs_settings(p: EmailPlan, s: AlertSettings)
    requires
        email_plan_for(p, s),
        !(p is Skip),
    ensures
        s.env matches Some(e) && e@ != "dev"@,
        s.email_to matches Some(to) && to@.len() > 0,
        s.smtp_host matches Some(h) && h@.len() > 0,
{
}

} // verus!

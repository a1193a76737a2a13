//! Going-live notifications: which webhooks are notified and what each
//! payload says. Only target names and public URLs ever reach a payload.

use crate::config::{NotificationSettings, TargetConfig};
use crate::text::{chars_of, push_char, push_str, trim_bounds, trimmed};
use vstd::prelude::*;

verus! {

/// What a notification may say about a target: never its stream key.
#[derive(Debug, Clone)]
pub struct NotificationTarget {
    pub name: String,
    pub public_url: Option<String>,
}

impl NotificationTarget {
    /// The notification view of a configured target.
    pub fn from_target(target: &TargetConfig) -> (r: NotificationTarget)
        ensures
            r.name@ == target.name@,
            crate::chat::opt_view(r.public_url) == crate::chat::opt_view(target.public_url),
    {
        NotificationTarget {
            name: target.name.clone(),
            public_url: match &target.public_url {
                Some(u) => Some(u.clone()),
                None => None,
            },
        }
    }
}

/// The notification views of the enabled targets, in configuration order.
pub fn enabled_notification_targets(targets: &Vec<TargetConfig>) -> (r: Vec<NotificationTarget>)
    ensures
        r@.len() == enabled_count(targets@, targets@.len() as int),
        forall|i: int|
            0 <= i < targets@.len() && targets@[i].enabled ==> {
                let k = enabled_count(targets@, i);
                &&& 0 <= k < r@.len()
                &&& r@[k].name@ == targets@[i].name@
                &&& crate::chat::opt_view(r@[k].public_url) == crate::chat::opt_view(
                    targets@[i].public_url,
                )
            },
{
    let mut r: Vec<NotificationTarget> = Vec::new();
    let mut k: usize = 0;
    while k < targets.len()
        invariant
            k <= targets@.len(),
            r@.len() == enabled_count(targets@, k as int),
            forall|i: int|
                0 <= i < k && targets@[i].enabled ==> {
                    let c = enabled_count(targets@, i);
                    &&& 0 <= c < r@.len()
                    &&& r@[c].name@ == targets@[i].name@
                    &&& crate::chat::opt_view(r@[c].public_url) == crate::chat::opt_view(
                        targets@[i].public_url,
                    )
                },
        decreases targets@.len() - k,
    {
        proof {
            lemma_enabled_count_step(targets@, k as int);
        }
        if targets[k].enabled {
            r.push(NotificationTarget::from_target(&targets[k]));
        }
        k += 1;
    }
    r
}

/// How many of the first `n` targets are enabled.
pub open spec fn enabled_count(targets: Seq<TargetConfig>, n: int) -> int
    decreases n,
{
    if n <= 0 {
        0
    } else {
        enabled_count(targets, n - 1) + if targets[n - 1].enabled { 1int } else { 0int }
    }
}

pub proof fn lemma_enabled_count_step(targets: Seq<TargetConfig>, n: int)
    requires
        0 <= n,
    ensures
        enabled_count(targets, n + 1) == enabled_count(targets, n) + if targets[n].enabled {
            1int
        } else {
            0int
        },
        0 <= enabled_count(targets, n) <= n,
    decreases n,
{
    if n > 0 {
        lemma_enabled_count_step(targets, n - 1);
    }
}

/// A Discord webhook with the going-live message.
#[derive(Debug, Clone)]
pub struct DiscordNotifier {
    webhook_url: String,
    live_message: String,
}

/// What a Discord going-live post says.
#[derive(Debug, Clone)]
pub struct DiscordPayload {
    /// The message text, which may mention `@everyone`.
    pub content: String,
    /// The embed title.
    pub title: String,
    /// The embed body, with a link per target that has a public URL.
    pub description: String,
    /// The embed colour.
    pub color: u32,
    /// The kinds of mention Discord may turn into pings.
    pub allowed_mentions: Vec<String>,
}

/// The Markdown link to a target: `[name](url)` with the URL trimmed.
pub open spec fn markdown_link(name: Seq<char>, url: Seq<char>) -> Seq<char> {
    seq!['['] + name + seq![']', '('] + crate::text::trim(url) + seq![')']
}

/// The links of the targets whose public URL is not blank, each on its own line.
pub open spec fn watch_links(targets: Seq<NotificationTarget>) -> Seq<Seq<char>>
    decreases targets.len(),
{
    if targets.len() == 0 {
        Seq::empty()
    } else {
        let rest = watch_links(targets.drop_last());
        let t = targets.last();
        match t.public_url {
            Some(url) => if crate::text::trim(url@).len() > 0 {
                rest.push(markdown_link(t.name@, url@))
            } else {
                rest
            },
            None => rest,
        }
    }
}

/// `lines` joined with `sep`.
pub open spec fn join(lines: Seq<Seq<char>>, sep: Seq<char>) -> Seq<char>
    decreases lines.len(),
{
    if lines.len() == 0 {
        Seq::empty()
    } else if lines.len() == 1 {
        lines[0]
    } else {
        join(lines.drop_last(), sep) + sep + lines.last()
    }
}

pub open spec fn discord_description(targets: Seq<NotificationTarget>) -> Seq<char> {
    let links = watch_links(targets);
    if links.len() == 0 {
        "The stream has started."@
    } else {
        "The stream has started.\n\n**Watch live on:**\n"@ + join(links, seq!['\n'])
    }
}

impl DiscordNotifier {
    pub fn new(webhook_url: String, live_message: String) -> (r: DiscordNotifier)
        ensures
            r.webhook_url_view() == webhook_url@,
            r.live_message_view() == live_message@,
    {
        DiscordNotifier { webhook_url, live_message }
    }

    pub closed spec fn webhook_url_view(&self) -> Seq<char> {
        self.webhook_url@
    }

    pub closed spec fn live_message_view(&self) -> Seq<char> {
        self.live_message@
    }

    /// The webhook URL to post to.
    pub fn webhook_url(&self) -> (r: &str)
        ensures
            r@ == self.webhook_url_view(),
    {
        self.webhook_url.as_str()
    }

    /// The post for a stream going live to `targets`; `None` when the webhook URL is blank.
    pub fn payload(&self, targets: &Vec<NotificationTarget>) -> (r: Option<DiscordPayload>)
        ensures
            r is None <==> crate::text::trim(self.webhook_url_view()).len() == 0,
            r matches Some(p) ==> {
                &&& p.content@ == self.live_message_view()
                &&& p.title@ == "🔴 We are LIVE"@
                &&& p.description@ == discord_description(targets@)
                &&& p.color == 15258703
                &&& p.allowed_mentions@.map_values(|m: String| m@) == seq![
                    "everyone"@,
                    "roles"@,
                    "users"@,
                ]
            },
    {
        let url = trimmed(self.webhook_url.as_str());
        if url.as_str().is_empty() {
            return None;
        }
        let mut links: String = String::new();
        let mut any = false;
        let mut k: usize = 0;
        while k < targets.len()
            invariant
                k <= targets@.len(),
                any == (watch_links(targets@.take(k as int)).len() > 0),
                any ==> links@ == join(watch_links(targets@.take(k as int)), seq!['\n']),
                !any ==> links@.len() == 0,
            decreases targets@.len() - k,
        {
            let ghost before = targets@.take(k as int);
            assert(targets@.take(k + 1).drop_last() =~= before);
            assert(targets@.take(k + 1).last() == targets@[k as int]);
            let t = &targets[k];
            match &t.public_url {
                Some(u) => {
                    let trimmed_url = trimmed(u.as_str());
                    if !trimmed_url.as_str().is_empty() {
                        if any {
                            push_char(&mut links, '\n');
                        }
                        push_char(&mut links, '[');
                        push_str(&mut links, t.name.as_str());
                        push_char(&mut links, ']');
                        push_char(&mut links, '(');
                        push_str(&mut links, trimmed_url.as_str());
                        push_char(&mut links, ')');
                        proof {
                            let l = watch_links(targets@.take(k + 1));
                            assert(l == watch_links(before).push(markdown_link(t.name@, u@)));
                            assert(l.drop_last() =~= watch_links(before));
                            if any {
                                assert(links@ =~= join(watch_links(before), seq!['\n']) + seq!['\n']
                                    + markdown_link(t.name@, u@));
                            } else {
                                assert(links@ =~= markdown_link(t.name@, u@));
                            }
                        }
                        any = true;
                    }
                },
                None => {},
            }
            k += 1;
        }
        assert(targets@.take(targets@.len() as int) =~= targets@);
        let mut description = "The stream has started.".to_owned();
        if any {
            push_str(&mut description, "\n\n**Watch live on:**\n");
            push_str(&mut description, links.as_str());
            assert(description@ =~= "The stream has started."@ + "\n\n**Watch live on:**\n"@ + links@);
            assert(description@ =~= "The stream has started.\n\n**Watch live on:**\n"@ + links@) by {
                reveal_strlit("The stream has started.");
                reveal_strlit("\n\n**Watch live on:**\n");
                reveal_strlit("The stream has started.\n\n**Watch live on:**\n");
            }
        }
        let allowed_mentions = vec!["everyone".to_owned(), "roles".to_owned(), "users".to_owned()];
        assert(allowed_mentions@.map_values(|m: String| m@) =~= seq!["everyone"@, "roles"@, "users"@]);
        Some(
            DiscordPayload {
                content: self.live_message.clone(),
                title: "🔴 We are LIVE".to_owned(),
                description,
                color: 15258703,
                allowed_mentions,
            },
        )
    }
}

/// A generic JSON webhook announcing `stream.started`.
#[derive(Debug, Clone)]
pub struct GenericWebhookNotifier {
    webhook_url: String,
    live_message: String,
}

/// The fields of a generic `stream.started` webhook body.
#[derive(Debug, Clone)]
pub struct GenericWebhookPayload {
    pub event: String,
    pub message: String,
    pub targets: Vec<String>,
    pub public_urls: Vec<String>,
    pub timestamp: u64,
}

/// The public URLs of the targets that have one, in order.
pub open spec fn public_urls(targets: Seq<NotificationTarget>) -> Seq<Seq<char>>
    decreases targets.len(),
{
    if targets.len() == 0 {
        Seq::empty()
    } else {
        let rest = public_urls(targets.drop_last());
        match targets.last().public_url {
            Some(url) => rest.push(url@),
            None => rest,
        }
    }
}

impl GenericWebhookNotifier {
    pub fn new(webhook_url: String, live_message: String) -> (r: GenericWebhookNotifier)
        ensures
            r.webhook_url_view() == webhook_url@,
            r.live_message_view() == live_message@,
    {
        GenericWebhookNotifier { webhook_url, live_message }
    }

    pub closed spec fn webhook_url_view(&self) -> Seq<char> {
        self.webhook_url@
    }

    pub closed spec fn live_message_view(&self) -> Seq<char> {
        self.live_message@
    }

    /// The webhook URL to post to.
    pub fn webhook_url(&self) -> (r: &str)
        ensures
            r@ == self.webhook_url_view(),
    {
        self.webhook_url.as_str()
    }

    /// Whether the webhook is configured (its URL is not blank).
    pub fn is_active(&self) -> (r: bool)
        ensures
            r == (crate::text::trim(self.webhook_url_view()).len() > 0),
    {
        let url = trimmed(self.webhook_url.as_str());
        !url.as_str().is_empty()
    }

    /// The webhook body for a stream that went live to `targets` at `timestamp`
    /// (seconds since the Unix epoch).
    pub fn payload(&self, targets: &Vec<NotificationTarget>, timestamp: u64) -> (r: GenericWebhookPayload)
        ensures
            r.event@ == "stream.started"@,
            r.message@ == self.live_message_view(),
            r.targets@.len() == targets@.len(),
            forall|i: int| 0 <= i < targets@.len() ==> (#[trigger] r.targets@[i])@ == targets@[i].name@,
            r.public_urls@.map_values(|u: String| u@) == public_urls(targets@),
            r.timestamp == timestamp,
    {
        let mut names: Vec<String> = Vec::new();
        let mut urls: Vec<String> = Vec::new();
        let mut k: usize = 0;
        while k < targets.len()
            invariant
                k <= targets@.len(),
                names@.len() == k,
                forall|i: int| 0 <= i < k ==> (#[trigger] names@[i])@ == targets@[i].name@,
                urls@.map_values(|u: String| u@) == public_urls(targets@.take(k as int)),
            decreases targets@.len() - k,
        {
            let ghost before = targets@.take(k as int);
            assert(targets@.take(k + 1).drop_last() =~= before);
            names.push(targets[k].name.clone());
            match &targets[k].public_url {
                Some(u) => {
                    let ghost old_urls = urls@;
                    urls.push(u.clone());
                    assert(urls@.map_values(|u: String| u@) =~= old_urls.map_values(|u: String| u@).push(u@));
                },
                None => {},
            }
            k += 1;
        }
        assert(targets@.take(targets@.len() as int) =~= targets@);
        GenericWebhookPayload {
            event: "stream.started".to_owned(),
            message: self.live_message.clone(),
            targets: names,
            public_urls: urls,
            timestamp,
        }
    }
}

/// The webhooks to notify: Discord and the generic webhook, each when configured.
#[derive(Debug, Clone)]
pub struct NotificationDispatcher {
    pub discord: Option<DiscordNotifier>,
    pub generic: Option<GenericWebhookNotifier>,
}

impl NotificationDispatcher {
    /// The notifiers that `settings` configure, both carrying the live message.
    pub fn new(settings: &NotificationSettings) -> (r: NotificationDispatcher)
        ensures
            r.discord is Some <==> settings.discord_webhook is Some,
            r.discord matches Some(d) ==> d.webhook_url_view() == settings.discord_webhook->0@
                && d.live_message_view() == settings.live_message@,
            r.generic is Some <==> settings.webhook_url is Some,
            r.generic matches Some(g) ==> g.webhook_url_view() == settings.webhook_url->0@
                && g.live_message_view() == settings.live_message@,
    {
        let discord = match &settings.discord_webhook {
            Some(url) => Some(DiscordNotifier::new(url.clone(), settings.live_message.clone())),
            None => None,
        };
        let generic = match &settings.webhook_url {
            Some(url) => Some(GenericWebhookNotifier::new(url.clone(), settings.live_message.clone())),
            None => None,
        };
        NotificationDispatcher { discord, generic }
    }
}

} // verus!

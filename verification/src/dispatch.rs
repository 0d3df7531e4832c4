//! The dispatcher's decisions: whether an inbound message is processed at
//! all, which candidate keys its text yields, whether its attachments are
//! scanned, and what an attachment's recognized text yields. The concurrent
//! launching of redemption tasks is the caller's; every decision that feeds
//! it is here.

use vstd::prelude::*;

use crate::extract::{candidates, get_potential_keys};

verus! {

/// The login pair exchanged for a session credential.
pub struct Credentials {
    pub login: String,
    pub password: String,
}

/// The immutable configuration, loaded once and shared read-only by every
/// task.
pub struct Config {
    /// The chat-platform credential.
    pub discord_token: String,
    /// The redemption API's login pair.
    pub api_credentials: Credentials,
    /// The origin allow-set: messages from other origins are ignored.
    pub server_ids: Vec<i64>,
    /// The accepted candidate-key lengths.
    pub key_lengths: Vec<usize>,
    /// Whether image attachments are scanned at all.
    pub snipe_images: bool,
    /// The strict composition rule: a candidate must hold a letter and a
    /// digit.
    pub strict: bool,
    /// Whether words with an `http:`/`https:` scheme prefix are discarded.
    pub skip_urls: bool,
}

/// Whether `origin_id` is in the allow-set.
pub fn origin_allowed(origin_id: i64, server_ids: &Vec<i64>) -> (r: bool)
    ensures
        r == server_ids@.contains(origin_id),
{
    let mut i: usize = 0;
    while i < server_ids.len()
        invariant
            i <= server_ids@.len(),
            forall|j: int| 0 <= j < i ==> #[trigger] server_ids@[j] != origin_id,
        decreases server_ids@.len() - i,
    {
        if server_ids[i] == origin_id {
            proof {
                assert(server_ids@[i as int] == origin_id);
            }
            return true;
        }
        i += 1;
    }
    false
}

/// Decides one inbound message: a message from an origin outside the
/// allow-set yields no candidate keys and no attachment scan; one from an
/// allowed origin yields the candidates of its text, and an attachment scan
/// exactly when image scanning is configured.
pub fn plan_message(config: &Config, origin_id: i64, text: &str) -> (plan: (Vec<String>, bool))
    ensures
        !config.server_ids@.contains(origin_id) ==> plan.0@.len() == 0 && plan.1 == false,
        config.server_ids@.contains(origin_id) ==> plan.0.deep_view() == candidates(
            text@,
            config.key_lengths@,
            config.strict,
            config.skip_urls,
        ) && plan.1 == config.snipe_images,
{
    if origin_allowed(origin_id, &config.server_ids) {
        let keys = get_potential_keys(text, &config.key_lengths, config.strict, config.skip_urls);
        (keys, config.snipe_images)
    } else {
        (Vec::new(), false)
    }
}

/// The candidate keys of one attachment's recognized text: none at all when
/// any stage of fetching, decoding or recognition failed (`None`), the
/// candidates of the recognized text otherwise. A failed attachment is
/// contained here: it yields zero candidates, never an error.
pub fn attachment_keys(
    ocr_text: &Option<String>,
    key_lengths: &Vec<usize>,
    strict: bool,
    skip_urls: bool,
) -> (keys: Vec<String>)
    ensures
        ocr_text is None ==> keys@.len() == 0,
        ocr_text matches Some(text) ==> keys.deep_view() == candidates(
            text@,
            key_lengths@,
            strict,
            skip_urls,
        ),
{
    match ocr_text {
        Some(text) => get_potential_keys(text.as_str(), key_lengths, strict, skip_urls),
        None => Vec::new(),
    }
}

} // verus!

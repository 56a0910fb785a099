//! Custom-emoji bookkeeping: whether a mention needs a fetch-and-upload or a
//! cached upload answers it, and the Matrix renderings of an uploaded emoji.
//! The downloads and uploads run outside the library.

use vstd::prelude::*;

use crate::models::EmojiMapping;
use crate::store::MappingStore;
use crate::store::has_emoji_for_slack;

verus! {

/// Whether an emoji id is purely numeric, the only shape the remote platform
/// hands out.
pub open spec fn spec_is_numeric_id(s: Seq<char>) -> bool {
    s.len() > 0 && forall|i: int| 0 <= i < s.len() ==> '0' <= #[trigger] s[i] <= '9'
}

fn is_numeric_id(s: &str) -> (r: bool)
    ensures
        r == spec_is_numeric_id(s@),
{
    let n = s.unicode_len();
    if n == 0 {
        return false;
    }
    let mut i: usize = 0;
    while i < n
        invariant
            i <= n,
            n == s@.len(),
            forall|j: int| 0 <= j < i ==> '0' <= #[trigger] s@[j] <= '9',
        decreases n - i,
    {
        let c = s.get_char(i);
        if !('0' <= c && c <= '9') {
            return false;
        }
        i = i + 1;
    }
    true
}

/// What an emoji mention needs: the id rejected as malformed, the cached
/// upload reused, or a fetch from the computed source address followed by an
/// upload.
#[derive(Debug, Clone, PartialEq, Eq)]
pub enum EmojiDecision {
    /// The id is not numeric: the mention is left alone.
    RejectedNonNumericId,
    /// The upload is cached already; reuse its address.
    Cached(String),
    /// Fetch from the source address and upload, then record the mapping.
    FetchAndUpload { source_url: String, content_type: &'static str },
}

/// Decides an emoji mention against the cache. Presence short-circuits the
/// fetch, absence asks for one; the decision never writes the store (the
/// mapping is recorded only after a successful upload).
pub fn emoji_upload_decision(store: &MappingStore, emoji_id: &str, animated: bool) -> (r:
    EmojiDecision)
    requires
        store.wf(),
    ensures
        match r {
            EmojiDecision::RejectedNonNumericId => !spec_is_numeric_id(emoji_id@),
            EmojiDecision::Cached(mxc) => exists|k: int|
                0 <= k < store.emojis().len() && (#[trigger] store.emojis()[k]).slack_emoji_id@
                    == emoji_id@ && mxc@ == store.emojis()[k].mxc_url@,
            EmojiDecision::FetchAndUpload { source_url, content_type } => {
                &&& spec_is_numeric_id(emoji_id@)
                &&& !has_emoji_for_slack(store.emojis(), emoji_id@)
                &&& source_url@ == "https://cdn.slackapp.com/emojis/"@ + emoji_id@ + (
                if animated {
                    ".gif"@
                } else {
                    ".png"@
                })
                &&& content_type@ == (if animated {
                    "image/gif"@
                } else {
                    "image/png"@
                })
            },
        },
{
    if !is_numeric_id(emoji_id) {
        return EmojiDecision::RejectedNonNumericId;
    }
    match store.get_emoji_by_slack_id(emoji_id) {
        Some(cached) => {
            proof {
                let emojis = store.emojis();
                let k = choose|k: int| 0 <= k < emojis.len() && emojis[k] == cached;
                assert((#[trigger] emojis[k]).slack_emoji_id@ == emoji_id@);
            }
            EmojiDecision::Cached(cached.mxc_url)
        },
        None => {
            let mut source_url = "https://cdn.slackapp.com/emojis/".to_owned();
            source_url.append(emoji_id);
            if animated {
                source_url.append(".gif");
            } else {
                source_url.append(".png");
            }
            EmojiDecision::FetchAndUpload {
                source_url,
                content_type: if animated {
                    "image/gif"
                } else {
                    "image/png"
                },
            }
        },
    }
}

/// Records an uploaded emoji so later mentions reuse it.
pub fn record_emoji_upload(
    store: &mut MappingStore,
    emoji_id: &str,
    emoji_name: &str,
    animated: bool,
    mxc_url: &str,
    now_ms: i64,
) -> (r: bool)
    requires
        old(store).wf(),
    ensures
        final(store).wf(),
        r ==> has_emoji_for_slack(final(store).emojis(), emoji_id@),
{
    let mapping = EmojiMapping::new(
        emoji_id.to_owned(),
        emoji_name.to_owned(),
        animated,
        mxc_url.to_owned(),
        now_ms,
    );
    match store.create_emoji(&mapping) {
        Ok(()) => {
            proof {
                let emojis = store.emojis();
                assert((#[trigger] emojis[emojis.len() - 1]).slack_emoji_id@ == emoji_id@);
            }
            true
        },
        Err(_) => false,
    }
}

/// The rich Matrix rendering of an uploaded emoji.
pub fn emoji_to_matrix_html(mxc_url: &str, emoji_name: &str) -> (r: String)
    ensures
        r@ == "<img data-mx-emoticon src=\""@ + mxc_url@ + "\" alt=\":"@ + emoji_name@
            + ":\" title=\":"@ + emoji_name@ + ":\" height=\"32\" width=\"32\" />"@,
{
    let mut out = "<img data-mx-emoticon src=\"".to_owned();
    out.append(mxc_url);
    out.append("\" alt=\":");
    out.append(emoji_name);
    out.append(":\" title=\":");
    out.append(emoji_name);
    out.append(":\" height=\"32\" width=\"32\" />");
    out
}

/// The plain-text Matrix rendering of an emoji mention.
pub fn emoji_to_matrix_plain(emoji_name: &str) -> (r: String)
    ensures
        r@ == ":"@ + emoji_name@ + ":"@,
{
    let mut out = ":".to_owned();
    out.append(emoji_name);
    out.append(":");
    out
}

} // verus!

//! Ghost-profile helpers: reducing a remote display name to the characters a
//! Matrix localpart accepts.

use vstd::prelude::*;

use crate::text::push_char;

verus! {

/// The characters a Matrix localpart keeps; everything else becomes an
/// underscore.
pub open spec fn is_mxid_char(c: char) -> bool {
    ('a' <= c && c <= 'z') || ('A' <= c && c <= 'Z') || ('0' <= c && c <= '9') || c == '_' || c
        == '-' || c == '.' || c == '=' || c == '/' || c == '+'
}

pub open spec fn spec_sanitize_for_mxid(s: Seq<char>) -> Seq<char> {
    s.map_values(
        |c: char|
            if is_mxid_char(c) {
                c
            } else {
                '_'
            },
    )
}

fn is_mxid_char_exec(c: char) -> (r: bool)
    ensures
        r == is_mxid_char(c),
{
    ('a' <= c && c <= 'z') || ('A' <= c && c <= 'Z') || ('0' <= c && c <= '9') || c == '_' || c
        == '-' || c == '.' || c == '=' || c == '/' || c == '+'
}

/// Replaces every character a Matrix localpart refuses by an underscore.
pub fn sanitize_for_mxid(input: &str) -> (r: String)
    ensures
        r@ == spec_sanitize_for_mxid(input@),
{
    let n = input.unicode_len();
    let mut out = String::new();
    let mut i: usize = 0;
    while i < n
        invariant
            i <= n,
            n == input@.len(),
            out@ =~= spec_sanitize_for_mxid(input@.subrange(0, i as int)),
        decreases n - i,
    {
        let c = input.get_char(i);
        if is_mxid_char_exec(c) {
            push_char(&mut out, c);
        } else {
            push_char(&mut out, '_');
        }
        proof {
            assert(out@ =~= spec_sanitize_for_mxid(input@.subrange(0, i as int + 1)));
        }
        i = i + 1;
    }
    proof {
        assert(input@.subrange(0, n as int) =~= input@);
    }
    out
}


/// The ghost-profile changes one remote profile event calls for, against
/// what the store already holds.
#[derive(Debug, Clone, PartialEq, Eq)]
pub struct UserProfilePlan {
    /// The store key: the remote user id, suffixed for webhook senders.
    pub slack_id: String,
    /// The ghost's Matrix id: the existing record's, or a fresh one.
    pub mx_user_id: String,
    /// Whether this sender is unseen and a mapping must be created.
    pub create: bool,
    /// The displayname to set, only when it differs from the stored one.
    pub set_displayname: Option<String>,
    /// The avatar to upload and set, only when it differs from the stored
    /// one.
    pub set_avatar_url: Option<String>,
    /// Whether a stored avatar must be cleared because the profile lost its
    /// own.
    pub remove_avatar: bool,
}

/// The store key a remote sender goes by: webhook senders get a sanitized
/// name suffix so distinct webhook personas stay distinct.
pub open spec fn spec_ghost_local_id(
    slack_user_id: Seq<char>,
    slack_username: Option<Seq<char>>,
    is_webhook: bool,
) -> Seq<char> {
    if is_webhook {
        slack_user_id + "_"@ + spec_sanitize_for_mxid(
            match slack_username {
                Some(name) => name,
                None => "unknown"@,
            },
        )
    } else {
        slack_user_id
    }
}

/// The ghost displayname a profile event implies: the configured pattern
/// over the remote id, a fixed tag and the username.
pub open spec fn spec_ghost_displayname(
    pattern: Seq<char>,
    slack_user_id: Seq<char>,
    name: Seq<char>,
) -> Seq<char> {
    crate::formatting::spec_apply_pattern(
        pattern,
        seq![("id"@, slack_user_id), ("tag"@, "0000"@), ("username"@, name)],
    )
}

/// The store key a remote sender goes by.
pub fn ghost_local_id(slack_user_id: &str, slack_username: Option<&str>, is_webhook: bool) -> (r:
    String)
    ensures
        r@ == spec_ghost_local_id(
            slack_user_id@,
            match slack_username {
                Some(n) => Some(n@),
                None => None,
            },
            is_webhook,
        ),
{
    if is_webhook {
        let raw_name: &str = match slack_username {
            Some(n) => n,
            None => "unknown",
        };
        let sanitized = sanitize_for_mxid(raw_name);
        let mut id = slack_user_id.to_owned();
        id.append("_");
        id.append(sanitized.as_str());
        id
    } else {
        slack_user_id.to_owned()
    }
}

/// Plans the ghost-profile update for one remote profile event: an unseen
/// sender is created, a known one has only the changed fields touched, and
/// a profile that lost its avatar has the stored one removed.
pub fn plan_user_profile_update(
    existing: Option<&crate::models::UserMapping>,
    slack_user_id: &str,
    slack_username: Option<&str>,
    slack_avatar_url: Option<&str>,
    is_webhook: bool,
    username_pattern: &str,
    domain: &str,
) -> (r: UserProfilePlan)
    ensures
        r.slack_id@ == spec_ghost_local_id(
            slack_user_id@,
            match slack_username {
                Some(n) => Some(n@),
                None => None,
            },
            is_webhook,
        ),
        r.create == (existing is None),
        match slack_username {
            Some(name) => {
                &&& (existing is None ==> (r.set_displayname matches Some(d) && d@
                    == spec_ghost_displayname(username_pattern@, slack_user_id@, name@)))
                &&& (existing matches Some(e) ==> (
                if spec_ghost_displayname(username_pattern@, slack_user_id@, name@)
                    != e.slack_username@ {
                    r.set_displayname matches Some(d) && d@ == spec_ghost_displayname(
                        username_pattern@,
                        slack_user_id@,
                        name@,
                    )
                } else {
                    r.set_displayname is None
                }))
            },
            None => r.set_displayname is None,
        },
        existing is None ==> {
            &&& r.mx_user_id@ == "@_slack_"@ + r.slack_id@ + ":"@ + domain@
            &&& (match (r.set_avatar_url, slack_avatar_url) {
                (Some(a), Some(u)) => a@ == u@,
                (None, None) => true,
                _ => false,
            })
            &&& !r.remove_avatar
        },
        existing matches Some(e) ==> {
            &&& r.mx_user_id == e.matrix_user_id
            &&& (match (e.slack_avatar, slack_avatar_url) {
                (Some(a), Some(u)) => if a@ == u@ {
                    r.set_avatar_url is None
                } else {
                    r.set_avatar_url matches Some(v) && v@ == u@
                },
                (None, Some(u)) => r.set_avatar_url matches Some(v) && v@ == u@,
                (_, None) => r.set_avatar_url is None,
            })
            &&& r.remove_avatar == (slack_avatar_url is None && e.slack_avatar is Some)
        },
{
    let slack_id: String = ghost_local_id(slack_user_id, slack_username, is_webhook);

    let displayname: Option<String> = match slack_username {
        Some(name) => {
            let vars: [(&str, &str); 3] = [
                ("id", slack_user_id),
                ("tag", "0000"),
                ("username", name),
            ];
            let rendered = crate::formatting::apply_pattern_string(username_pattern, &vars);
            proof {
                assert(vars@.map_values(|p: (&str, &str)| (p.0@, p.1@)) =~= seq![
                    ("id"@, slack_user_id@),
                    ("tag"@, "0000"@),
                    ("username"@, name@),
                ]);
            }
            Some(rendered)
        },
        None => None,
    };

    match existing {
        None => {
            let mx_user_id = crate::matrix::ghost_user_id(slack_id.as_str(), domain);
            UserProfilePlan {
                slack_id,
                mx_user_id,
                create: true,
                set_displayname: displayname,
                set_avatar_url: match slack_avatar_url {
                    Some(u) => Some(u.to_owned()),
                    None => None,
                },
                remove_avatar: false,
            }
        },
        Some(e) => {
            let set_displayname: Option<String> = match &displayname {
                Some(d) => {
                    if crate::text::string_eq_str(&e.slack_username, d.as_str()) {
                        None
                    } else {
                        Some(d.clone())
                    }
                },
                None => None,
            };
            let set_avatar_url: Option<String> = match (slack_avatar_url, &e.slack_avatar) {
                (Some(u), Some(a)) => {
                    if crate::text::string_eq_str(a, u) {
                        None
                    } else {
                        Some(u.to_owned())
                    }
                },
                (Some(u), None) => Some(u.to_owned()),
                (None, _) => None,
            };
            let remove_avatar = slack_avatar_url.is_none() && e.slack_avatar.is_some();
            UserProfilePlan {
                slack_id,
                mx_user_id: e.matrix_user_id.clone(),
                create: false,
                set_displayname,
                set_avatar_url,
                remove_avatar,
            }
        },
    }
}

} // verus!

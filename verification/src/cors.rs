//! The cross-origin policy, from its configuration.

use vstd::prelude::*;
use axum::http::HeaderValue;
use crate::text::{split, split_at, texts, trim, trimmed};

verus! {

/// Whether `c` may stand in the value of an HTTP header: a tab, or any
/// character from the space on but the delete character.
pub open spec fn is_header_value_char(c: char) -> bool {
    let code = c as u32;
    (code >= 32 && code != 127) || code == 9
}

/// Whether `s` can be the value of an HTTP header.
pub open spec fn is_header_value(s: Seq<char>) -> bool {
    forall|i: int| 0 <= i < s.len() ==> is_header_value_char(#[trigger] s[i])
}

/// Calls `HeaderValue::from_str` of the http crate, by its re-export in axum,
/// and says whether it returned a value. It accepts a string if and only if
/// each of its bytes is a tab, or at least 32 and not 127; the bytes of a
/// character above 127 are all above 127, so this is a condition on the
/// characters.
#[verifier::external_body]
fn header_value_accepts(s: &str) -> (ok: bool)
    ensures
        ok == is_header_value(s@),
{
    HeaderValue::from_str(s).is_ok()
}

/// Who may call across origins.
#[derive(Debug, PartialEq, Eq)]
pub enum CorsPolicy {
    /// Any origin, without credentials.
    AllowAny,
    /// The listed origins only, with credentials.
    AllowList(Vec<String>),
}

/// The model of a [`CorsPolicy`].
pub enum CorsPolicyView {
    AllowAny,
    AllowList(Seq<Seq<char>>),
}

impl View for CorsPolicy {
    type V = CorsPolicyView;

    open spec fn view(&self) -> CorsPolicyView {
        match self {
            CorsPolicy::AllowAny => CorsPolicyView::AllowAny,
            CorsPolicy::AllowList(origins) => CorsPolicyView::AllowList(texts(origins@)),
        }
    }
}

/// The origins among the parts of a list: each part without the white space
/// around it, if it can be the value of a header, in the order of the list.
pub open spec fn origins(parts: Seq<Seq<char>>) -> Seq<Seq<char>>
    decreases parts.len(),
{
    if parts.len() == 0 {
        Seq::empty()
    } else {
        let origin = trimmed(parts.last());
        if is_header_value(origin) {
            origins(parts.drop_last()).push(origin)
        } else {
            origins(parts.drop_last())
        }
    }
}

/// The policy for a configured list of origins, separated by commas. Without
/// a configuration, or with `*`, any origin is allowed.
pub open spec fn cors_policy(configured: Option<Seq<char>>) -> CorsPolicyView {
    match configured {
        None => CorsPolicyView::AllowAny,
        Some(list) => if list == seq!['*'] {
            CorsPolicyView::AllowAny
        } else {
            CorsPolicyView::AllowList(origins(split(list, ',')))
        },
    }
}

/// The cross-origin policy for the configured list of allowed origins.
pub fn cors_layer(allowed_origins: Option<&str>) -> (policy: CorsPolicy)
    ensures
        policy@ == cors_policy(
            match allowed_origins {
                Some(list) => Some(list@),
                None => None,
            },
        ),
{
    let list = match allowed_origins {
        Some(list) => list,
        None => {
            return CorsPolicy::AllowAny;
        },
    };
    if list.unicode_len() == 1 && list.get_char(0) == '*' {
        assert(list@ =~= seq!['*']);
        return CorsPolicy::AllowAny;
    }
    let parts = split_at(list, ',');
    let mut allowed: Vec<String> = Vec::new();
    let mut i: usize = 0;
    while i < parts.len()
        invariant
            i <= parts.len(),
            texts(allowed@) == origins(texts(parts@).take(i as int)),
        decreases parts.len() - i,
    {
        proof {
            assert(texts(parts@).take(i + 1).drop_last() =~= texts(parts@).take(i as int));
            assert(texts(parts@).take(i + 1).last() == parts@[i as int]@);
        }
        let ghost before = texts(allowed@);
        let origin = trim(parts[i].as_str());
        if header_value_accepts(origin) {
            allowed.push(origin.to_owned());
            assert(texts(allowed@) =~= before.push(origin@));
        }
        i = i + 1;
    }
    assert(texts(parts@).take(i as int) =~= texts(parts@));
    CorsPolicy::AllowList(allowed)
}

} // verus!

//! What a homeserver must be able to do.

use vstd::prelude::*;
use vstd::string::*;

use crate::json::{content, lemma_member, parsed_json, read, Json, JsonModel};
use crate::text::{chars_of, slice, string_of};

verus! {

/// What a homeserver supports.
#[derive(Debug, PartialEq, Eq)]
pub struct Capabilities {
    /// Native sliding sync. Required: the room list cannot work without it.
    pub sliding_sync: bool,
    /// Without it, thread-per-agent-session degrades to one pane per room.
    pub threads: bool,
    pub cross_signing: bool,
    /// Versions of the protocol that it speaks.
    pub versions: Vec<String>,
}

/// The mathematical content of a [`Capabilities`].
#[verifier::ext_equal]
pub struct CapabilitiesModel {
    pub sliding_sync: bool,
    pub threads: bool,
    pub cross_signing: bool,
    pub versions: Seq<Seq<char>>,
}

impl View for Capabilities {
    type V = CapabilitiesModel;

    open spec fn view(&self) -> CapabilitiesModel {
        CapabilitiesModel {
            sliding_sync: self.sliding_sync,
            threads: self.threads,
            cross_signing: self.cross_signing,
            versions: self.versions.deep_view(),
        }
    }
}

impl DeepView for Capabilities {
    type V = CapabilitiesModel;

    open spec fn deep_view(&self) -> CapabilitiesModel {
        self@
    }
}

impl Clone for Capabilities {
    fn clone(&self) -> (r: Self)
        ensures
            r@ == self@,
    {
        let r = Capabilities {
            sliding_sync: self.sliding_sync,
            threads: self.threads,
            cross_signing: self.cross_signing,
            versions: self.versions.clone(),
        };
        assert(r.versions.deep_view() =~= self.versions.deep_view());
        r
    }
}

/// An address without the slashes it ends in.
pub open spec fn without_slashes(s: Seq<char>) -> Seq<char>
    decreases s.len(),
{
    if s.len() > 0 && s.last() == '/' {
        without_slashes(s.drop_last())
    } else {
        s
    }
}

/// Where a homeserver says what it supports.
pub fn versions_url(homeserver: &str) -> (r: String)
    ensures
        r@ == without_slashes(homeserver@) + "/_matrix/client/versions"@,
{
    let chars = chars_of(homeserver);
    let mut n = chars.len();
    assert(chars@.take(n as int) =~= chars@);
    while n > 0 && chars[n - 1] == '/'
        invariant
            n <= chars.len(),
            without_slashes(chars@.take(n as int)) == without_slashes(chars@),
        decreases n,
    {
        assert(chars@.take(n as int).last() == '/');
        assert(chars@.take(n as int).drop_last() =~= chars@.take(n - 1));
        n -= 1;
    }
    proof {
        let kept = chars@.take(n as int);
        if n > 0 {
            assert(kept.last() == chars@[n - 1]);
        }
        assert(without_slashes(kept) == kept);
        assert(chars@.subrange(0, n as int) =~= kept);
    }
    let mut url = string_of(&slice(&chars, 0, n));
    url.append("/_matrix/client/versions");
    url
}

/// Whether an answer advertises a feature.
pub open spec fn advertises(body: JsonModel, name: Seq<char>) -> bool {
    match body.member("unstable_features"@) {
        Some(features) => features.member(name) == Some(JsonModel::Bool(true)),
        None => false,
    }
}

/// The texts among some values.
pub open spec fn texts(items: Seq<JsonModel>) -> Seq<Seq<char>>
    decreases items.len(),
{
    if items.len() == 0 {
        Seq::empty()
    } else {
        match items.last().as_text() {
            Some(s) => texts(items.drop_last()).push(s),
            None => texts(items.drop_last()),
        }
    }
}

/// What an answer says of the homeserver. What it does not say is not supported.
pub open spec fn capabilities_in(body: JsonModel) -> CapabilitiesModel {
    CapabilitiesModel {
        sliding_sync: advertises(body, "org.matrix.simplified_msc3575"@),
        threads: advertises(body, "org.matrix.msc3440.stable"@),
        cross_signing: advertises(body, "org.matrix.e2e_cross_signing"@),
        versions: match body.member("versions"@) {
            Some(JsonModel::List(items)) => texts(items),
            _ => Seq::empty(),
        },
    }
}

fn has_feature(body: &Json, name: &str) -> (r: bool)
    ensures
        r == advertises(content(*body), name@),
{
    proof {
        lemma_member(*body, "unstable_features"@);
    }
    match body.get("unstable_features") {
        Some(features) => {
            proof {
                lemma_member(*features, name@);
            }
            match features.get(name) {
                Some(Json::Bool(b)) => *b,
                _ => false,
            }
        },
        None => false,
    }
}

fn texts_in(items: &Vec<Json>, Ghost(all): Ghost<Seq<JsonModel>>) -> (r: Vec<String>)
    requires
        all.len() == items@.len(),
        forall|i: int| 0 <= i < all.len() ==> #[trigger] all[i] == content(items@[i]),
    ensures
        r.deep_view() == texts(all),
{
    let mut out: Vec<String> = Vec::new();
    let mut i: usize = 0;
    assert(out.deep_view() =~= texts(all.take(0)));
    while i < items.len()
        invariant
            i <= items.len() == all.len(),
            forall|i: int| 0 <= i < all.len() ==> #[trigger] all[i] == content(items@[i]),
            out.deep_view() == texts(all.take(i as int)),
        decreases items.len() - i,
    {
        let ghost so_far = out.deep_view();
        proof {
            assert(all.take(i + 1).drop_last() =~= all.take(i as int));
            assert(all.take(i + 1).last() == all[i as int]);
        }
        if let Json::Text(s) = &items[i] {
            out.push(s.clone());
            assert(out.deep_view() =~= so_far.push(s@));
        }
        i += 1;
    }
    assert(all.take(all.len() as int) =~= all);
    out
}

impl Capabilities {
    /// What a homeserver's answer says of it.
    pub fn of(body: &Json) -> (r: Capabilities)
        ensures
            r@ == capabilities_in(content(*body)),
    {
        proof {
            lemma_member(*body, "versions"@);
        }
        let versions = match body.get("versions") {
            Some(Json::List(items)) => texts_in(items, Ghost(content(Json::List(*items))->List_0)),
            _ => {
                let none: Vec<String> = Vec::new();
                assert(none.deep_view() =~= Seq::<Seq<char>>::empty());
                none
            },
        };
        Capabilities {
            sliding_sync: has_feature(body, "org.matrix.simplified_msc3575"),
            threads: has_feature(body, "org.matrix.msc3440.stable"),
            cross_signing: has_feature(body, "org.matrix.e2e_cross_signing"),
            versions,
        }
    }

    /// Whether the client can run against this homeserver at all.
    pub fn is_usable(&self) -> (r: bool)
        ensures
            r == self@.sliding_sync,
    {
        self.sliding_sync
    }

    /// Human-readable problems, worst first.
    pub fn problems(&self) -> (r: Vec<String>)
        ensures
            r.deep_view() == self@.problems(),
    {
        let mut out: Vec<String> = Vec::new();
        if !self.sliding_sync {
            out.push(
                "homeserver does not advertise org.matrix.simplified_msc3575 (MSC4186); heddle requires native sliding sync".to_owned(),
            );
        }
        if !self.threads {
            out.push(
                "homeserver does not advertise org.matrix.msc3440.stable; thread-per-agent-session will be unavailable".to_owned(),
            );
        }
        if !self.cross_signing {
            out.push(
                "homeserver does not advertise org.matrix.e2e_cross_signing; device verification will be unavailable".to_owned(),
            );
        }
        assert(out.deep_view() =~= self@.problems());
        out
    }
}

impl CapabilitiesModel {
    /// Human-readable problems, worst first.
    pub open spec fn problems(self) -> Seq<Seq<char>> {
        (if self.sliding_sync {
            Seq::empty()
        } else {
            seq![
                "homeserver does not advertise org.matrix.simplified_msc3575 (MSC4186); heddle requires native sliding sync"@,
            ]
        }) + (if self.threads {
            Seq::empty()
        } else {
            seq![
                "homeserver does not advertise org.matrix.msc3440.stable; thread-per-agent-session will be unavailable"@,
            ]
        }) + (if self.cross_signing {
            Seq::empty()
        } else {
            seq![
                "homeserver does not advertise org.matrix.e2e_cross_signing; device verification will be unavailable"@,
            ]
        })
    }
}

/// Check that a homeserver advertises everything that is needed, by the answer it gave. An
/// answer that is not JSON is no answer.
pub fn check_homeserver(answer: &str) -> (r: Result<Capabilities, String>)
    ensures
        match r {
            Ok(caps) => parsed_json(answer@) is Ok && caps@ == capabilities_in(parsed_json(answer@)->Ok_0),
            Err(e) => parsed_json(answer@) == Err::<JsonModel, Seq<char>>(e@),
        },
{
    match read(answer) {
        Ok(body) => Ok(Capabilities::of(&body)),
        Err(e) => Err(e),
    }
}

/// Sliding sync is the only hard requirement, and missing it is the first problem named.
pub proof fn law_only_sliding_sync_is_required(caps: CapabilitiesModel)
    ensures
        caps.problems().len() == (if caps.sliding_sync {
            0int
        } else {
            1
        }) + (if caps.threads {
            0int
        } else {
            1
        }) + (if caps.cross_signing {
            0int
        } else {
            1
        }),
        !caps.sliding_sync ==> caps.problems()[0]
            == "homeserver does not advertise org.matrix.simplified_msc3575 (MSC4186); heddle requires native sliding sync"@,
{
}

} // verus!

//! The build-time features of the hypervisor binary, as its ping response lists them.
use vstd::prelude::*;
use vstd::string::*;

use super::hypervisor::CloudHypervisorInner;
use super::json;
use super::json::{Json, JsonValue};
use super::launch;
use crate::text;

verus! {

/// Why a ping response is refused.
#[derive(Debug, Clone, PartialEq, Eq)]
pub enum FeaturesError {
    /// The response is not JSON; what the parser says of it.
    NotJson(String),
    /// The features are not listed in an array.
    NotArray,
}

/// `s` without `"` at its start.
pub open spec fn unquoted_front(s: Seq<char>) -> Seq<char>
    decreases s.len(),
{
    if s.len() > 0 && s[0] == '"' {
        unquoted_front(s.skip(1))
    } else {
        s
    }
}

/// `s` without `"` at its end.
pub open spec fn unquoted_back(s: Seq<char>) -> Seq<char>
    decreases s.len(),
{
    if s.len() > 0 && s.last() == '"' {
        unquoted_back(s.drop_last())
    } else {
        s
    }
}

/// `s` without `"` at its ends.
pub open spec fn unquoted(s: Seq<char>) -> Seq<char> {
    unquoted_back(unquoted_front(s))
}

/// The features in a list: the text of each entry without its quotes.
pub open spec fn feature_texts(entries: Seq<Json>) -> Seq<Seq<char>> {
    Seq::new(entries.len(), |i: int| unquoted(json::json_text(entries[i])))
}

/// The features that a ping response lists; `None` where it lists none.
pub open spec fn features_of(response: Json) -> Result<Option<Seq<Seq<char>>>, FeaturesError> {
    match response.member("features"@) {
        None => Ok(None),
        Some(Json::Null) => Ok(None),
        Some(Json::Array(entries)) => Ok(Some(feature_texts(entries))),
        Some(_) => Err(FeaturesError::NotArray),
    }
}

/// `s` without `"` at its ends.
pub fn trim_quotes(s: &str) -> (r: String)
    ensures
        r@ == unquoted(s@),
{
    let chars = text::chars_of(s);
    let mut from: usize = 0;
    assert(s@.skip(0) =~= s@);
    while from < chars.len() && chars[from] == '"'
        invariant
            chars@ == s@,
            from <= s@.len(),
            unquoted_front(s@) == unquoted_front(s@.skip(from as int)),
        decreases s@.len() - from,
    {
        assert(s@.skip(from as int)[0] == s@[from as int]);
        assert(s@.skip(from as int).skip(1) =~= s@.skip(from + 1));
        from = from + 1;
    }
    let ghost front = s@.skip(from as int);
    proof {
        if from < s@.len() {
            assert(front[0] == s@[from as int]);
        }
    }
    let mut to: usize = chars.len();
    assert(s@.subrange(from as int, to as int) =~= front);
    while from < to && chars[to - 1] == '"'
        invariant
            chars@ == s@,
            from <= to <= s@.len(),
            unquoted_back(front) == unquoted_back(s@.subrange(from as int, to as int)),
        decreases to - from,
    {
        let ghost part = s@.subrange(from as int, to as int);
        assert(part.last() == s@[to - 1]);
        assert(part.drop_last() =~= s@.subrange(from as int, to - 1));
        to = to - 1;
    }
    proof {
        if from < to {
            assert(s@.subrange(from as int, to as int).last() == s@[to - 1]);
        }
    }
    String::from_str(s.substring_char(from, to))
}

/// The features that a ping response lists; `None` where it lists none.
pub fn build_features(response: JsonValue) -> (r: Result<Option<Vec<String>>, FeaturesError>)
    ensures
        match features_of(response@) {
            Ok(Some(features)) => r matches Ok(Some(v)) && launch::texts(v@) == features,
            Ok(None) => r matches Ok(None),
            Err(e) => r == Err::<Option<Vec<String>>, FeaturesError>(e),
        },
{
    let listed: Option<JsonValue> = response.into_member("features");
    match listed {
        None => Ok(None),
        Some(JsonValue::Null) => Ok(None),
        Some(JsonValue::Array(entries)) => {
            let ghost all = entries@;
            let mut out: Vec<String> = Vec::new();
            for entry in it: entries.into_iter()
                invariant
                    it.seq() == all,
                    out@.len() == it.index(),
                    forall|k: int|
                        0 <= k < out@.len() ==> (#[trigger] out@[k])@ == unquoted(
                            json::json_text(all[k]@),
                        ),
            {
                let printed = json::print(entry);
                out.push(trim_quotes(printed.as_str()));
            }
            assert(launch::texts(out@) =~= features_of(response@)->Ok_0->0);
            Ok(Some(out))
        },
        Some(_) => Err(FeaturesError::NotArray),
    }
}

/// Whether `after` is `before` with the features taken note of.
pub open spec fn features_noted(
    before: CloudHypervisorInner,
    after: CloudHypervisorInner,
    features: Seq<Seq<char>>,
) -> bool {
    &&& after.ch_features matches Some(v) && launch::texts(v@) == features
    &&& after == (CloudHypervisorInner { ch_features: after.ch_features, ..before })
}

impl CloudHypervisorInner {
    /// Takes note of the build-time features, if the ping response lists them.
    pub fn handle_ch_build_features(&mut self, ping_response: &str) -> (r: Result<
        (),
        FeaturesError,
    >)
        ensures
            match json::json_parse_text(ping_response@) {
                Err(why) => r matches Err(FeaturesError::NotJson(e)) && e@ == why && *final(self)
                    == *old(self),
                Ok(j) => match features_of(j) {
                    Err(e) => r == Err::<(), FeaturesError>(e) && *final(self) == *old(self),
                    Ok(None) => r is Ok && *final(self) == *old(self),
                    Ok(Some(features)) => r is Ok && features_noted(
                        *old(self),
                        *final(self),
                        features,
                    ) && final(self).ch_features is Some && (
                    final(self).ch_features->0)@.len() == features.len() && forall|i: int|
                        0 <= i < features.len() ==> (#[trigger] (final(self).ch_features->0)@[i])@
                            == features[i],
                },
            },
            *final(self) == (CloudHypervisorInner {
                ch_features: final(self).ch_features,
                ..*old(self)
            }),
            r is Err ==> *final(self) == *old(self),
    {
        let response: JsonValue = match json::parse_text(ping_response) {
            Ok(response) => response,
            Err(why) => {
                return Err(FeaturesError::NotJson(why));
            },
        };
        match build_features(response)? {
            Some(features) => {
                proof {
                    assert forall|i: int| 0 <= i < features@.len() implies (
                    #[trigger] features@[i])@ == launch::texts(features@)[i] by {
                    }
                }
                self.ch_features = Some(features);
            },
            None => {},
        }
        Ok(())
    }

    /// A ping has been answered, with or without a text, or not. Whether the hypervisor is ready;
    /// where it is not, it is pinged again.
    pub fn cloud_hypervisor_ping_until_ready(&mut self, answer: Option<Option<String>>) -> (r:
        Result<bool, FeaturesError>)
        ensures
            match answer {
                None => r == Ok::<bool, FeaturesError>(false) && *final(self) == *old(self),
                Some(None) => r == Ok::<bool, FeaturesError>(true) && *final(self) == *old(self),
                Some(Some(detail)) => match json::json_parse_text(detail@) {
                    Err(why) => r matches Err(FeaturesError::NotJson(e)) && e@ == why
                        && *final(self) == *old(self),
                    Ok(j) => match features_of(j) {
                        Err(e) => r == Err::<bool, FeaturesError>(e) && *final(self) == *old(self),
                        Ok(None) => r == Ok::<bool, FeaturesError>(true) && *final(self) == *old(
                            self,
                        ),
                        Ok(Some(features)) => r == Ok::<bool, FeaturesError>(true)
                            && features_noted(*old(self), *final(self), features)
                            && final(self).ch_features is Some && (
                        final(self).ch_features->0)@.len() == features.len() && forall|i: int|
                            0 <= i < features.len() ==> (
                            #[trigger] (final(self).ch_features->0)@[i])@ == features[i],
                    },
                },
            },
            *final(self) == (CloudHypervisorInner {
                ch_features: final(self).ch_features,
                ..*old(self)
            }),
            r == Ok::<bool, FeaturesError>(false) <==> answer is None,
    {
        match answer {
            None => Ok(false),
            Some(None) => Ok(true),
            Some(Some(detail)) => {
                self.handle_ch_build_features(detail.as_str())?;
                Ok(true)
            },
        }
    }
}

/// `n` quotes.
pub open spec fn quotes(n: nat) -> Seq<char> {
    Seq::new(n, |i: int| '"')
}

/// Quotes at the ends of a text are taken off, however many there are at either end; those inside
/// stay. Of quotes alone nothing is left.
pub proof fn law_quotes_are_trimmed(n: nat, middle: Seq<char>, m: nat)
    requires
        middle.len() > 0 ==> middle[0] != '"' && middle.last() != '"',
    ensures
        unquoted(quotes(n) + middle + quotes(m)) == middle,
{
    lemma_front_quotes(n, middle, m);
    if middle.len() == 0 {
        assert(middle =~= Seq::empty());
        assert(unquoted_back(Seq::<char>::empty()) =~= middle);
    } else {
        lemma_back_quotes(middle, m);
    }
}

proof fn lemma_front_quotes(n: nat, middle: Seq<char>, m: nat)
    requires
        middle.len() > 0 ==> middle[0] != '"',
    ensures
        unquoted_front(quotes(n) + middle + quotes(m)) == if middle.len() == 0 {
            Seq::empty()
        } else {
            middle + quotes(m)
        },
    decreases n + m,
{
    let s = quotes(n) + middle + quotes(m);
    if n > 0 {
        assert(s[0] == '"');
        assert(s.skip(1) =~= quotes((n - 1) as nat) + middle + quotes(m));
        lemma_front_quotes((n - 1) as nat, middle, m);
    } else if middle.len() > 0 {
        assert(s =~= middle + quotes(m));
        assert(s[0] == middle[0]);
    } else if m > 0 {
        assert(s[0] == '"');
        assert(s.skip(1) =~= quotes(0) + middle + quotes((m - 1) as nat));
        lemma_front_quotes(0, middle, (m - 1) as nat);
    } else {
        assert(s =~= Seq::empty());
    }
}

proof fn lemma_back_quotes(middle: Seq<char>, m: nat)
    requires
        middle.len() > 0,
        middle.last() != '"',
    ensures
        unquoted_back(middle + quotes(m)) == middle,
    decreases m,
{
    let s = middle + quotes(m);
    if m > 0 {
        assert(s.last() == '"');
        assert(s.drop_last() =~= middle + quotes((m - 1) as nat));
        lemma_back_quotes(middle, (m - 1) as nat);
    } else {
        assert(s =~= middle);
    }
}

/// Features are taken note of exactly where the response has a list of them: one for each entry, in
/// order. Without them, or with null in their place, there are none; anything else is refused.
pub proof fn law_features_are_listed(response: Json, i: int)
    ensures
        match features_of(response) {
            Ok(Some(features)) => response.member("features"@) matches Some(Json::Array(entries))
                && features.len() == entries.len() && (0 <= i < entries.len() ==> features[i]
                == unquoted(json::json_text(entries[i]))),
            Ok(None) => response.member("features"@) is None || response.member("features"@)
                == Some(Json::Null),
            Err(e) => e is NotArray && response.member("features"@) is Some,
        },
        response.member("features"@) matches Some(Json::Array(_)) ==> features_of(
            response,
        ) matches Ok(Some(_)),
        response.member("features"@) matches Some(Json::Null) ==> features_of(response) matches Ok(
            None,
        ),
        response.member("features"@) is None ==> features_of(response) matches Ok(None),
{
}

} // verus!

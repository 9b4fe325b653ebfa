use vstd::prelude::*;
use vstd::string::*;

use crate::text::push_str;

verus! {

/// The lowercase form of a string, as Unicode defines it.
pub uninterp spec fn lowercase(s: Seq<char>) -> Seq<char>;

/// Trusted: `str::to_lowercase` returns a new string that depends on `s`
/// alone; its value is named [`lowercase`] and nothing more is claimed.
#[verifier::external_body]
fn to_lowercase(s: &str) -> (r: String)
    ensures
        r@ == lowercase(s@),
{
    s.to_lowercase()
}

/// `key` without `prefix`, when it starts with it.
pub open spec fn strip_prefix(key: Seq<char>, prefix: Seq<char>) -> Option<Seq<char>> {
    if prefix.len() <= key.len() && key.subrange(0, prefix.len() as int) == prefix {
        Some(key.subrange(prefix.len() as int, key.len() as int))
    } else {
        None
    }
}

/// The (key, value) pairs whose key starts with `prefix`, with it removed.
pub open spec fn prefixed_pairs(pairs: Seq<(Seq<char>, Seq<char>)>, prefix: Seq<char>) -> Seq<
    (Seq<char>, Seq<char>),
>
    decreases pairs.len(),
{
    if pairs.len() == 0 {
        Seq::empty()
    } else {
        let rest = prefixed_pairs(pairs.drop_last(), prefix);
        match strip_prefix(pairs.last().0, prefix) {
            Some(k) => rest.push((k, pairs.last().1)),
            None => rest,
        }
    }
}

/// The pairs with lowercased keys.
pub open spec fn lowercased_pairs(pairs: Seq<(Seq<char>, Seq<char>)>) -> Seq<(Seq<char>, Seq<char>)> {
    pairs.map_values(|p: (Seq<char>, Seq<char>)| (lowercase(p.0), p.1))
}

pub open spec fn pair_views(pairs: Seq<(String, String)>) -> Seq<(Seq<char>, Seq<char>)> {
    pairs.map_values(|p: (String, String)| (p.0@, p.1@))
}

fn strip_key_prefix(key: &str, prefix: &str) -> (r: Option<String>)
    ensures
        match strip_prefix(key@, prefix@) {
            Some(k) => r matches Some(s) && s@ == k,
            None => r is None,
        },
{
    let klen = key.unicode_len();
    let plen = prefix.unicode_len();
    if plen > klen {
        return None;
    }
    let mut i: usize = 0;
    while i < plen
        invariant
            plen == prefix@.len(),
            klen == key@.len(),
            plen <= klen,
            i <= plen,
            forall|j: int| 0 <= j < i ==> key@[j] == prefix@[j],
        decreases plen - i,
    {
        if key.get_char(i) != prefix.get_char(i) {
            proof {
                assert(key@.subrange(0, prefix@.len() as int)[i as int] != prefix@[i as int]);
            }
            return None;
        }
        i += 1;
    }
    proof {
        assert(key@.subrange(0, prefix@.len() as int) =~= prefix@);
    }
    let rest = key.substring_char(plen, klen);
    Some(String::from_str(rest))
}

/// Builds a deserializer over (key, value) pairs, such as environment
/// variables.
pub struct DeserializerBuilder {
    pairs: Vec<(String, String)>,
}

impl DeserializerBuilder {
    /// The pairs the deserializer will read, in order.
    pub closed spec fn spec_pairs(&self) -> Seq<(Seq<char>, Seq<char>)> {
        pair_views(self.pairs@)
    }

    pub fn new(pairs: Vec<(String, String)>) -> (b: DeserializerBuilder)
        ensures
            b.spec_pairs() == pair_views(pairs@),
    {
        DeserializerBuilder { pairs }
    }

    /// Keeps the pairs whose key starts with `prefix`, removing it.
    pub fn prefixed(self, prefix: &str) -> (b: DeserializerBuilder)
        ensures
            b.spec_pairs() == prefixed_pairs(self.spec_pairs(), prefix@),
    {
        let ghost old_pairs = self.spec_pairs();
        let mut out: Vec<(String, String)> = Vec::new();
        let mut i: usize = 0;
        assert(old_pairs.take(0) =~= Seq::<(Seq<char>, Seq<char>)>::empty());
        assert(pair_views(out@) =~= Seq::<(Seq<char>, Seq<char>)>::empty());
        while i < self.pairs.len()
            invariant
                i <= self.pairs@.len(),
                old_pairs == pair_views(self.pairs@),
                pair_views(out@) == prefixed_pairs(old_pairs.take(i as int), prefix@),
            decreases self.pairs@.len() - i,
        {
            let (key, value) = &self.pairs[i];
            proof {
                assert(old_pairs.take(i + 1).drop_last() =~= old_pairs.take(i as int));
                assert(old_pairs[i as int] == (key@, value@));
            }
            match strip_key_prefix(key.as_str(), prefix) {
                Some(k) => {
                    let ghost before = out@;
                    out.push((k, value.clone()));
                    proof {
                        assert(pair_views(out@) =~= pair_views(before).push((k@, value@)));
                    }
                },
                None => {},
            }
            i += 1;
        }
        assert(old_pairs.take(self.pairs@.len() as int) =~= old_pairs);
        DeserializerBuilder { pairs: out }
    }

    /// Lowercases every key.
    pub fn lowercased(self) -> (b: DeserializerBuilder)
        ensures
            b.spec_pairs() == lowercased_pairs(self.spec_pairs()),
    {
        let ghost old_pairs = self.spec_pairs();
        let mut out: Vec<(String, String)> = Vec::new();
        let mut i: usize = 0;
        while i < self.pairs.len()
            invariant
                i <= self.pairs@.len(),
                old_pairs == pair_views(self.pairs@),
                pair_views(out@) == lowercased_pairs(old_pairs.take(i as int)),
            decreases self.pairs@.len() - i,
        {
            let (key, value) = &self.pairs[i];
            let ghost before = out@;
            out.push((to_lowercase(key.as_str()), value.clone()));
            proof {
                assert(old_pairs[i as int] == (key@, value@));
                assert(old_pairs.take(i + 1) =~= old_pairs.take(i as int).push(old_pairs[i as int]));
                assert(pair_views(out@) =~= pair_views(before).push((lowercase(key@), value@)));
                assert(lowercased_pairs(old_pairs.take(i + 1)) =~= lowercased_pairs(old_pairs.take(i as int)).push((lowercase(key@), value@)));
                assert(pair_views(out@) =~= lowercased_pairs(old_pairs.take(i + 1)));
            }
            i += 1;
        }
        assert(old_pairs.take(self.pairs@.len() as int) =~= old_pairs);
        DeserializerBuilder { pairs: out }
    }

    /// The reader of the pairs as a map.
    pub fn into_accessor(self) -> (m: MapTomlAccesor)
        ensures
            m.remaining() == self.spec_pairs(),
            m.current() is None,
    {
        MapTomlAccesor::new(self.pairs)
    }
}

/// The builder over the given environment, with lowercased keys.
pub fn builder_default(vars: Vec<(String, String)>) -> (b: DeserializerBuilder)
    ensures
        b.spec_pairs() == lowercased_pairs(pair_views(vars@)),
{
    DeserializerBuilder::new(vars).lowercased()
}

/// Reads (key, value) pairs one at a time, as a map: a key, then its value.
pub struct MapTomlAccesor {
    iter: Vec<(String, String)>,
    current: Option<(String, String)>,
}

impl MapTomlAccesor {
    pub closed spec fn remaining(&self) -> Seq<(Seq<char>, Seq<char>)> {
        pair_views(self.iter@)
    }

    pub closed spec fn current(&self) -> Option<(Seq<char>, Seq<char>)> {
        match self.current {
            Some(p) => Some((p.0@, p.1@)),
            None => None,
        }
    }

    pub fn new(iter: Vec<(String, String)>) -> (m: MapTomlAccesor)
        ensures
            m.remaining() == pair_views(iter@),
            m.current() is None,
    {
        MapTomlAccesor { iter, current: None }
    }

    /// The next key; its pair becomes the current one.
    pub fn next_key(&mut self) -> (k: Option<String>)
        ensures
            old(self).remaining().len() == 0 ==> k is None && final(self).remaining() == old(self).remaining() && final(self).current() == old(self).current(),
            old(self).remaining().len() > 0 ==> (k matches Some(key) && key@ == old(self).remaining()[0].0 && final(self).current() == Some(old(self).remaining()[0])
                && final(self).remaining() == old(self).remaining().drop_first()),
    {
        if self.iter.len() == 0 {
            return None;
        }
        let ghost before = self.iter@;
        let (key, value) = self.iter.remove(0);
        let k = key.clone();
        self.current = Some((key, value));
        proof {
            assert(pair_views(self.iter@) =~= pair_views(before).drop_first());
        }
        Some(k)
    }

    /// Whether a key was read whose value was not yet taken.
    pub fn has_current(&self) -> (b: bool)
        ensures
            b == self.current() is Some,
    {
        self.current.is_some()
    }

    /// The current pair, which the next value comes from.
    pub fn next_value(&mut self) -> (p: (String, String))
        requires
            old(self).current() is Some,
        ensures
            Some((p.0@, p.1@)) == old(self).current(),
            final(self).current() is None,
            final(self).remaining() == old(self).remaining(),
    {
        self.current.take().unwrap()
    }
}

/// Deserializes a map key: the key text itself.
pub struct KeyDeserializer<'s>(pub &'s str);

impl<'s> KeyDeserializer<'s> {
    pub fn identifier(&self) -> (r: &str)
        ensures
            r@ == self.0@,
    {
        self.0
    }
}

/// Why one field's value could not be read.
pub enum FieldError {
    /// The TOML parser's message.
    Toml(String),
    Custom(String),
}

/// Why deserialization failed.
pub enum Error {
    NotImplemented { typename: &'static str },
    Custom(String),
    Field { name: String, error: FieldError },
}

/// The value of `name` could not be read.
pub fn field_error(name: String, error: FieldError) -> (e: Error)
    ensures
        e == (Error::Field { name, error }),
{
    Error::Field { name, error }
}

/// Deserializes a value: strings as they are, everything else through TOML.
pub struct ValueDeserializer<'de> {
    pub value: &'de str,
}

impl<'de> ValueDeserializer<'de> {
    /// The text the TOML parser reads.
    pub fn toml_input(&self) -> (r: &'de str)
        ensures
            r@ == self.value@,
    {
        self.value
    }

    /// The value as a string.
    pub fn string(&self) -> (s: String)
        ensures
            s@ == self.value@,
    {
        String::from_str(self.value)
    }

    /// The value as a single character.
    pub fn character(&self) -> (r: Result<char, FieldError>)
        ensures
            self.value@.len() == 1 ==> r == Ok::<char, FieldError>(self.value@[0]),
            self.value@.len() == 0 ==> (r matches Err(FieldError::Custom(m)) && m@
                == "cannot parse char from empty string"@),
            self.value@.len() > 1 ==> (r matches Err(FieldError::Custom(m)) && m@
                == "too many characters in string"@),
    {
        let n = self.value.unicode_len();
        if n == 1 {
            Ok(self.value.get_char(0))
        } else if n == 0 {
            let mut m = String::new();
            push_str(&mut m, "cannot parse char from empty string");
            Err(FieldError::Custom(m))
        } else {
            let mut m = String::new();
            push_str(&mut m, "too many characters in string");
            Err(FieldError::Custom(m))
        }
    }
}

} // verus!

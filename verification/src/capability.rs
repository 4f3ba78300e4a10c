//! Protocol capabilities that a git client asks for, and the
//! space-separated list in which they travel.
use vstd::prelude::*;
use vstd::string::StringExecFns;
use crate::text::{str_eq, chars_of, string_of_chars};

verus! {

/// One protocol capability.
#[derive(Debug)]
pub enum Capability {
    SideBand,
    SideBand64K,
    MultiAck,
    MultiAckDetailed,
    Unknown(String),
}

/// What a capability is, with the text of an unknown one.
pub enum CapabilityV {
    SideBand,
    SideBand64K,
    MultiAck,
    MultiAckDetailed,
    Unknown(Seq<char>),
}

impl View for Capability {
    type V = CapabilityV;

    open spec fn view(&self) -> CapabilityV {
        match self {
            Capability::SideBand => CapabilityV::SideBand,
            Capability::SideBand64K => CapabilityV::SideBand64K,
            Capability::MultiAck => CapabilityV::MultiAck,
            Capability::MultiAckDetailed => CapabilityV::MultiAckDetailed,
            Capability::Unknown(s) => CapabilityV::Unknown(s@),
        }
    }
}

/// The capability that a name stands for.
pub open spec fn capability_of(s: Seq<char>) -> CapabilityV {
    if s == "side-band"@ {
        CapabilityV::SideBand
    } else if s == "side-band-64k"@ {
        CapabilityV::SideBand64K
    } else if s == "multi_ack"@ {
        CapabilityV::MultiAck
    } else if s == "multi_ack_detailed"@ {
        CapabilityV::MultiAckDetailed
    } else {
        CapabilityV::Unknown(s)
    }
}

/// The name under which a capability travels.
pub open spec fn capability_name(c: CapabilityV) -> Seq<char> {
    match c {
        CapabilityV::SideBand => "side-band"@,
        CapabilityV::SideBand64K => "side-band-64k"@,
        CapabilityV::MultiAck => "multi_ack"@,
        CapabilityV::MultiAckDetailed => "multi_ack_detailed"@,
        CapabilityV::Unknown(s) => s,
    }
}

impl PartialEq for Capability {
    fn eq(&self, other: &Capability) -> (r: bool) {
        match (self, other) {
            (Capability::SideBand, Capability::SideBand) => true,
            (Capability::SideBand64K, Capability::SideBand64K) => true,
            (Capability::MultiAck, Capability::MultiAck) => true,
            (Capability::MultiAckDetailed, Capability::MultiAckDetailed) => true,
            (Capability::Unknown(a), Capability::Unknown(b)) => str_eq(a.as_str(), b.as_str()),
            _ => false,
        }
    }
}

impl vstd::std_specs::cmp::PartialEqSpecImpl for Capability {
    open spec fn obeys_eq_spec() -> bool {
        true
    }

    open spec fn eq_spec(&self, other: &Capability) -> bool {
        self@ == other@
    }
}

impl Capability {
    /// Reads a capability from its name; a name that is not known gives
    /// `Unknown` with that name.
    pub fn from_name(s: &str) -> (r: Capability)
        ensures
            r@ == capability_of(s@),
    {
        if str_eq(s, "side-band") {
            Capability::SideBand
        } else if str_eq(s, "side-band-64k") {
            Capability::SideBand64K
        } else if str_eq(s, "multi_ack") {
            Capability::MultiAck
        } else if str_eq(s, "multi_ack_detailed") {
            Capability::MultiAckDetailed
        } else {
            Capability::Unknown(s.to_owned())
        }
    }

    /// The name of the capability, as it is written on the wire.
    pub fn to_string(&self) -> (r: String)
        ensures
            r@ == capability_name(self@),
    {
        match self {
            Capability::SideBand => "side-band".to_owned(),
            Capability::SideBand64K => "side-band-64k".to_owned(),
            Capability::MultiAck => "multi_ack".to_owned(),
            Capability::MultiAckDetailed => "multi_ack_detailed".to_owned(),
            Capability::Unknown(s) => s.clone(),
        }
    }
}

/// A list of capabilities, in the order the client sent them.
#[derive(Debug)]
pub struct Capabilities(Vec<Capability>);

impl View for Capabilities {
    type V = Seq<CapabilityV>;

    closed spec fn view(&self) -> Seq<CapabilityV> {
        self.0@.map_values(|c: Capability| c@)
    }
}

/// The words of `s` that `cur` continues: the runs of characters between
/// spaces, without the empty ones.
pub open spec fn words_from(s: Seq<char>, cur: Seq<char>) -> Seq<Seq<char>>
    decreases s.len(),
{
    if s.len() == 0 {
        if cur.len() > 0 {
            seq![cur]
        } else {
            seq![]
        }
    } else if s[0] == ' ' {
        (if cur.len() > 0 {
            seq![cur]
        } else {
            seq![]
        }) + words_from(s.drop_first(), seq![])
    } else {
        words_from(s.drop_first(), cur.push(s[0]))
    }
}

/// The non-empty words of `s`, separated by spaces.
pub open spec fn words(s: Seq<char>) -> Seq<Seq<char>> {
    words_from(s, seq![])
}

/// Each capability's name followed by a space.
pub open spec fn capabilities_text(cs: Seq<CapabilityV>) -> Seq<char>
    decreases cs.len(),
{
    if cs.len() == 0 {
        seq![]
    } else {
        capabilities_text(cs.drop_last()) + capability_name(cs.last()) + seq![' ']
    }
}

impl Capabilities {
    pub fn new(caps: Vec<Capability>) -> (r: Capabilities)
        ensures
            r@ == caps@.map_values(|c: Capability| c@),
    {
        Capabilities(caps)
    }

    pub fn empty() -> (r: Capabilities)
        ensures
            r@ == Seq::<CapabilityV>::empty(),
    {
        let r = Capabilities(Vec::new());
        assert(r@ =~= Seq::<CapabilityV>::empty());
        r
    }

    /// Whether `cap` is one of the capabilities.
    pub fn contains(&self, cap: Capability) -> (r: bool)
        ensures
            r == self@.contains(cap@),
    {
        let mut i: usize = 0;
        while i < self.0.len()
            invariant
                i <= self.0@.len(),
                forall|j: int| 0 <= j < i ==> #[trigger] self.0@[j]@ != cap@,
            decreases self.0@.len() - i,
        {
            if self.0[i] == cap {
                assert(self@[i as int] == cap@);
                return true;
            }
            i = i + 1;
        }
        assert forall|j: int| 0 <= j < self@.len() implies self@[j] != cap@ by {
            assert(self@[j] == self.0@[j]@);
        }
        false
    }

    /// Reads the capabilities named in `s`, separated by spaces.
    pub fn from_text(s: &str) -> (r: Capabilities)
        ensures
            r@ == words(s@).map_values(|w: Seq<char>| capability_of(w)),
    {
        let chars = chars_of(s);
        let mut caps: Vec<Capability> = Vec::new();
        let mut cur: Vec<char> = Vec::new();
        let ghost mut names: Seq<Seq<char>> = seq![];
        let mut i: usize = 0;
        assert(s@.skip(0) =~= s@);
        assert(caps@.map_values(|c: Capability| c@) =~= names.map_values(|w: Seq<char>| capability_of(w)));
        while i < chars.len()
            invariant
                i <= chars@.len(),
                chars@ == s@,
                words(s@) == names + words_from(s@.skip(i as int), cur@),
                caps@.map_values(|c: Capability| c@) == names.map_values(|w: Seq<char>| capability_of(w)),
            decreases chars@.len() - i,
        {
            let c = chars[i];
            assert(s@.skip(i as int).drop_first() =~= s@.skip(i + 1));
            assert(s@.skip(i as int)[0] == c);
            if c == ' ' {
                if cur.len() > 0 {
                    let word = string_of_chars(&cur);
                    let cap = Capability::from_name(word.as_str());
                    let ghost old_caps = caps@.map_values(|c: Capability| c@);
                    caps.push(cap);
                    proof {
                        assert(caps@.map_values(|c: Capability| c@) =~= old_caps.push(cap@));
                        assert(names.push(cur@).map_values(|w: Seq<char>| capability_of(w))
                            =~= names.map_values(|w: Seq<char>| capability_of(w)).push(capability_of(cur@)));
                        assert(names + seq![cur@] =~= names.push(cur@));
                        assert(names + (seq![cur@] + words_from(s@.skip(i + 1), seq![])) =~= names.push(cur@) + words_from(s@.skip(i + 1), seq![]));
                        names = names.push(cur@);
                    }
                } else {
                    assert(seq![] + words_from(s@.skip(i + 1), seq![]) =~= words_from(s@.skip(i + 1), seq![]));
                }
                cur = Vec::new();
                assert(cur@ =~= Seq::<char>::empty());
            } else {
                cur.push(c);
            }
            i = i + 1;
        }
        assert(s@.skip(i as int) =~= Seq::<char>::empty());
        if cur.len() > 0 {
            let word = string_of_chars(&cur);
            let cap = Capability::from_name(word.as_str());
            let ghost old_caps = caps@.map_values(|c: Capability| c@);
            caps.push(cap);
            proof {
                assert(caps@.map_values(|c: Capability| c@) =~= old_caps.push(cap@));
                assert(names.push(cur@).map_values(|w: Seq<char>| capability_of(w))
                    =~= names.map_values(|w: Seq<char>| capability_of(w)).push(capability_of(cur@)));
                assert(names + seq![cur@] =~= names.push(cur@));
                names = names.push(cur@);
            }
        } else {
            assert(names + seq![] =~= names);
        }
        assert(words(s@) =~= names);
        Capabilities(caps)
    }

    /// The capabilities' names, each followed by a space.
    pub fn to_string(&self) -> (r: String)
        ensures
            r@ == capabilities_text(self@),
    {
        let mut text = String::new();
        let mut i: usize = 0;
        assert(self@.take(0) =~= Seq::<CapabilityV>::empty());
        while i < self.0.len()
            invariant
                i <= self.0@.len(),
                self@ == self.0@.map_values(|c: Capability| c@),
                text@ == capabilities_text(self@.take(i as int)),
            decreases self.0@.len() - i,
        {
            let name = self.0[i].to_string();
            text.append(name.as_str());
            text.append(" ");
            proof {
                reveal_strlit(" ");
                assert(self@.take(i + 1).drop_last() =~= self@.take(i as int));
                assert(self@.take(i + 1).last() == self.0@[i as int]@);
            }
            i = i + 1;
        }
        assert(self@.take(i as int) =~= self@);
        text
    }
}

/// The name of a capability reads back as that capability, unless it is an
/// unknown capability that carries one of the known names.
pub open spec fn well_named(c: CapabilityV) -> bool {
    match c {
        CapabilityV::Unknown(s) => s != "side-band"@ && s != "side-band-64k"@ && s != "multi_ack"@
            && s != "multi_ack_detailed"@,
        _ => true,
    }
}

/// A name that can stand in a space-separated list: not empty, without spaces.
pub open spec fn listable(c: CapabilityV) -> bool {
    &&& capability_name(c).len() > 0
    &&& forall|i: int| 0 <= i < capability_name(c).len() ==> capability_name(c)[i] != ' '
}

/// Reading a capability from a name and writing it gives back the name.
pub proof fn law_name_of_parsed(s: Seq<char>)
    ensures
        capability_name(capability_of(s)) == s,
{
}

/// Writing a capability and reading the name back gives the capability, for
/// every capability but an unknown one that carries a known name.
pub proof fn law_parse_of_name(c: CapabilityV)
    requires
        well_named(c),
    ensures
        capability_of(capability_name(c)) == c,
{
    reveal_strlit("side-band");
    reveal_strlit("side-band-64k");
    reveal_strlit("multi_ack");
    reveal_strlit("multi_ack_detailed");
    assert("side-band"@.len() == 9);
    assert("side-band-64k"@.len() == 13);
    assert("multi_ack"@.len() == 9);
    assert("multi_ack_detailed"@.len() == 18);
    assert("multi_ack"@[0] != "side-band"@[0]);
}

proof fn lemma_words_from_word(a: Seq<char>, t: Seq<char>, cur: Seq<char>)
    requires
        forall|i: int| 0 <= i < a.len() ==> a[i] != ' ',
    ensures
        words_from(a + t, cur) == words_from(t, cur + a),
    decreases a.len(),
{
    if a.len() == 0 {
        assert(a + t =~= t);
        assert(cur + a =~= cur);
    } else {
        assert((a + t).drop_first() =~= a.drop_first() + t);
        assert((a + t)[0] == a[0]);
        lemma_words_from_word(a.drop_first(), t, cur.push(a[0]));
        assert(cur.push(a[0]) + a.drop_first() =~= cur + a);
    }
}

proof fn lemma_text_front(cs: Seq<CapabilityV>)
    requires
        cs.len() > 0,
    ensures
        capabilities_text(cs) == capability_name(cs[0]) + seq![' '] + capabilities_text(
            cs.drop_first(),
        ),
    decreases cs.len(),
{
    if cs.len() == 1 {
        assert(cs.drop_last() =~= Seq::<CapabilityV>::empty());
        assert(cs.drop_first() =~= Seq::<CapabilityV>::empty());
        assert(capabilities_text(cs.drop_last()) == Seq::<char>::empty());
        assert(cs.last() == cs[0]);
        assert(capabilities_text(cs) =~= Seq::<char>::empty() + capability_name(cs[0]) + seq![' ']);
        assert(capabilities_text(cs) =~= capability_name(cs[0]) + seq![' ']);
        assert(capability_name(cs[0]) + seq![' '] + Seq::<char>::empty() =~= capability_name(cs[0]) + seq![' ']);
    } else {
        lemma_text_front(cs.drop_last());
        assert(cs.drop_last().drop_first() =~= cs.drop_first().drop_last());
        assert(cs.drop_first().last() == cs.last());
        assert(capabilities_text(cs) =~= capability_name(cs[0]) + seq![' '] + capabilities_text(cs.drop_first()));
    }
}

/// A list of capabilities written out and read back is the same list, when
/// every name is non-empty, has no space and reads back as its capability.
pub proof fn law_capabilities_roundtrip(cs: Seq<CapabilityV>)
    requires
        forall|i: int| 0 <= i < cs.len() ==> well_named(#[trigger] cs[i]) && listable(cs[i]),
    ensures
        words(capabilities_text(cs)).map_values(|w: Seq<char>| capability_of(w)) == cs,
    decreases cs.len(),
{
    if cs.len() == 0 {
        assert(words(capabilities_text(cs)) =~= Seq::<Seq<char>>::empty());
        assert(words(capabilities_text(cs)).map_values(|w: Seq<char>| capability_of(w)) =~= cs);
    } else {
        let n = capability_name(cs[0]);
        let rest = cs.drop_first();
        assert forall|i: int| 0 <= i < rest.len() implies well_named(#[trigger] rest[i]) && listable(rest[i]) by {
            assert(rest[i] == cs[i + 1]);
        }
        law_capabilities_roundtrip(rest);
        lemma_text_front(cs);
        assert(well_named(cs[0]) && listable(cs[0]));
        let t = capabilities_text(rest);
        assert(n + seq![' '] + t =~= n + (seq![' '] + t));
        lemma_words_from_word(n, seq![' '] + t, seq![]);
        assert(Seq::<char>::empty() + n =~= n);
        assert((seq![' '] + t).drop_first() =~= t);
        assert(words(capabilities_text(cs)) =~= seq![n] + words(t));
        law_parse_of_name(cs[0]);
        let f = |w: Seq<char>| capability_of(w);
        assert((seq![n] + words(t)).map_values(f) =~= seq![f(n)] + words(t).map_values(f));
        assert(seq![cs[0]] + rest =~= cs);
        assert(words(capabilities_text(cs)).map_values(f) =~= cs);
    }
}

impl std::str::FromStr for Capability {
    type Err = std::convert::Infallible;

    fn from_str(s: &str) -> (parsed: Result<Capability, std::convert::Infallible>)
        ensures
            parsed is Ok && parsed->Ok_0@ == capability_of(s@),
    {
        Ok(Capability::from_name(s))
    }
}

impl std::str::FromStr for Capabilities {
    type Err = std::convert::Infallible;

    fn from_str(s: &str) -> (parsed: Result<Capabilities, std::convert::Infallible>)
        ensures
            parsed is Ok && parsed->Ok_0@ == words(s@).map_values(|w: Seq<char>| capability_of(w)),
    {
        Ok(Capabilities::from_text(s))
    }
}

} // verus!

//! Character records: alignment, species, classes and ability scores,
//! with the exact textual form the alignment pair is exchanged in.
use vstd::prelude::*;

use crate::strutil::str_eq;
use vstd::string::StrSliceExecFns;
use vstd::string::StringExecFns;

verus! {

/// The good-evil axis of an alignment.
#[derive(Debug, Clone, Copy, PartialEq, Eq, Hash, Structural)]
pub enum Morality {
    Good,
    Neutral,
    Evil,
}

/// A string that names no morality.
#[derive(Debug, Clone, Copy, PartialEq, Eq, Hash, Structural)]
pub struct InvalidMorality;

/// The lawful-chaotic axis of an alignment.
#[derive(Debug, Clone, Copy, PartialEq, Eq, Hash, Structural)]
pub enum Order {
    Lawful,
    Neutral,
    Chaotic,
}

/// A string that names no order.
#[derive(Debug, Clone, Copy, PartialEq, Eq, Hash, Structural)]
pub struct InvalidOrder;

pub open spec fn spec_morality_name(m: Morality) -> Seq<char> {
    match m {
        Morality::Good => "Good"@,
        Morality::Neutral => "Neutral"@,
        Morality::Evil => "Evil"@,
    }
}

pub open spec fn spec_parse_morality(s: Seq<char>) -> Result<Morality, InvalidMorality> {
    if s == "Good"@ {
        Result::Ok(Morality::Good)
    } else if s == "Neutral"@ {
        Result::Ok(Morality::Neutral)
    } else if s == "Evil"@ {
        Result::Ok(Morality::Evil)
    } else {
        Result::Err(InvalidMorality)
    }
}

impl Morality {
    /// Parses the textual name of a morality; exactly the three names
    /// are accepted.
    pub fn from_str(s: &str) -> (r: Result<Morality, InvalidMorality>)
        ensures
            r == spec_parse_morality(s@),
    {
        if str_eq(s, "Good") {
            Result::Ok(Morality::Good)
        } else if str_eq(s, "Neutral") {
            Result::Ok(Morality::Neutral)
        } else if str_eq(s, "Evil") {
            Result::Ok(Morality::Evil)
        } else {
            Result::Err(InvalidMorality)
        }
    }

    /// The textual name of this morality.
    pub fn name(&self) -> (r: String)
        ensures
            r@ == spec_morality_name(*self),
    {
        match self {
            Morality::Good => String::from_str("Good"),
            Morality::Neutral => String::from_str("Neutral"),
            Morality::Evil => String::from_str("Evil"),
        }
    }
}

pub open spec fn spec_order_name(o: Order) -> Seq<char> {
    match o {
        Order::Lawful => "Lawful"@,
        Order::Neutral => "Neutral"@,
        Order::Chaotic => "Chaotic"@,
    }
}

pub open spec fn spec_parse_order(s: Seq<char>) -> Result<Order, InvalidOrder> {
    if s == "Lawful"@ {
        Result::Ok(Order::Lawful)
    } else if s == "Neutral"@ {
        Result::Ok(Order::Neutral)
    } else if s == "Chaotic"@ {
        Result::Ok(Order::Chaotic)
    } else {
        Result::Err(InvalidOrder)
    }
}

impl Order {
    /// Parses the textual name of an order; exactly the three names
    /// are accepted.
    pub fn from_str(s: &str) -> (r: Result<Order, InvalidOrder>)
        ensures
            r == spec_parse_order(s@),
    {
        if str_eq(s, "Lawful") {
            Result::Ok(Order::Lawful)
        } else if str_eq(s, "Neutral") {
            Result::Ok(Order::Neutral)
        } else if str_eq(s, "Chaotic") {
            Result::Ok(Order::Chaotic)
        } else {
            Result::Err(InvalidOrder)
        }
    }

    /// The textual name of this order.
    pub fn name(&self) -> (r: String)
        ensures
            r@ == spec_order_name(*self),
    {
        match self {
            Order::Lawful => String::from_str("Lawful"),
            Order::Neutral => String::from_str("Neutral"),
            Order::Chaotic => String::from_str("Chaotic"),
        }
    }
}

/// Why an alignment string was rejected.
#[derive(Debug, Clone, Copy, PartialEq, Eq, Structural)]
pub enum InvalidAlignment {
    MissingOrder,
    MissingMorality,
    InvalidOrder,
    InvalidMorality,
}

/// The textual form of an alignment pair: order, one space, morality.
pub open spec fn spec_alignment_string(a: (Order, Morality)) -> Seq<char> {
    spec_order_name(a.0) + seq![' '] + spec_morality_name(a.1)
}

/// Writes an alignment pair in its textual form.
pub fn alignment_to_string(alignment: &(Order, Morality)) -> (r: String)
    ensures
        r@ == spec_alignment_string(*alignment),
{
    let mut s = alignment.0.name();
    s.append(" ");
    s.append(alignment.1.name().as_str());
    proof {
        reveal_strlit(" ");
        assert(" "@ =~= seq![' ']);
    }
    s
}

/// The characters `str::split_whitespace` treats as whitespace: the
/// fixed Unicode White_Space list of `char::is_whitespace`.
pub open spec fn spec_is_ws(c: char) -> bool {
    ||| c == '\t'
    ||| c == '\n'
    ||| c == '\u{0B}'
    ||| c == '\u{0C}'
    ||| c == '\r'
    ||| c == ' '
    ||| c == '\u{85}'
    ||| c == '\u{A0}'
    ||| c == '\u{1680}'
    ||| c == '\u{2000}'
    ||| c == '\u{2001}'
    ||| c == '\u{2002}'
    ||| c == '\u{2003}'
    ||| c == '\u{2004}'
    ||| c == '\u{2005}'
    ||| c == '\u{2006}'
    ||| c == '\u{2007}'
    ||| c == '\u{2008}'
    ||| c == '\u{2009}'
    ||| c == '\u{200A}'
    ||| c == '\u{2028}'
    ||| c == '\u{2029}'
    ||| c == '\u{202F}'
    ||| c == '\u{205F}'
    ||| c == '\u{3000}'
}

fn is_ws_char(c: char) -> (r: bool)
    ensures
        r == spec_is_ws(c),
{
    c == '\t' || c == '\n' || c == '\u{0B}' || c == '\u{0C}' || c == '\r' || c == ' ' || c
        == '\u{85}' || c == '\u{A0}' || c == '\u{1680}' || c == '\u{2000}' || c == '\u{2001}'
        || c == '\u{2002}' || c == '\u{2003}' || c == '\u{2004}' || c == '\u{2005}' || c
        == '\u{2006}' || c == '\u{2007}' || c == '\u{2008}' || c == '\u{2009}' || c
        == '\u{200A}' || c == '\u{2028}' || c == '\u{2029}' || c == '\u{202F}' || c
        == '\u{205F}' || c == '\u{3000}'
}

/// The string without its leading run of whitespace.
pub open spec fn spec_skip_ws(s: Seq<char>) -> Seq<char>
    decreases s.len(),
{
    if s.len() == 0 {
        s
    } else if spec_is_ws(s[0]) {
        spec_skip_ws(s.drop_first())
    } else {
        s
    }
}

/// The maximal whitespace-free prefix of the string.
pub open spec fn spec_ws_token(s: Seq<char>) -> Seq<char>
    decreases s.len(),
{
    if s.len() == 0 {
        Seq::empty()
    } else if spec_is_ws(s[0]) {
        Seq::empty()
    } else {
        seq![s[0]] + spec_ws_token(s.drop_first())
    }
}

proof fn lemma_skip_ws_at(s: Seq<char>, i: int)
    requires
        0 <= i <= s.len(),
        forall|k: int| 0 <= k < i ==> spec_is_ws(s[k]),
        i == s.len() || !spec_is_ws(s[i]),
    ensures
        spec_skip_ws(s) == s.skip(i),
    decreases i,
{
    if i == 0 {
        assert(s.skip(0) =~= s);
    } else {
        assert(spec_is_ws(s[0]));
        assert forall|k: int| 0 <= k < i - 1 implies spec_is_ws(s.drop_first()[k]) by {
            assert(s.drop_first()[k] == s[k + 1]);
        }
        if i < s.len() {
            assert(s.drop_first()[i - 1] == s[i]);
        }
        lemma_skip_ws_at(s.drop_first(), i - 1);
        assert(s.drop_first().skip(i - 1) =~= s.skip(i));
    }
}

proof fn lemma_ws_token_at(s: Seq<char>, j: int)
    requires
        0 <= j <= s.len(),
        forall|k: int| 0 <= k < j ==> !spec_is_ws(s[k]),
        j == s.len() || spec_is_ws(s[j]),
    ensures
        spec_ws_token(s) == s.subrange(0, j),
    decreases j,
{
    if j == 0 {
        assert(s.subrange(0, 0) =~= Seq::<char>::empty());
    } else {
        assert(!spec_is_ws(s[0]));
        assert forall|k: int| 0 <= k < j - 1 implies !spec_is_ws(s.drop_first()[k]) by {
            assert(s.drop_first()[k] == s[k + 1]);
        }
        if j < s.len() {
            assert(s.drop_first()[j - 1] == s[j]);
        }
        lemma_ws_token_at(s.drop_first(), j - 1);
        assert(seq![s[0]] + s.drop_first().subrange(0, j - 1) =~= s.subrange(0, j));
    }
}

/// How an alignment string is read back, mirroring whitespace
/// splitting: leading whitespace is skipped, the first
/// whitespace-free run names the order, the run of whitespace after it
/// is skipped, the next whitespace-free run names the morality, and
/// anything after the second token is ignored.
pub open spec fn spec_parse_alignment(s: Seq<char>) -> Result<
    (Order, Morality),
    InvalidAlignment,
> {
    let r1 = spec_skip_ws(s);
    let t1 = spec_ws_token(r1);
    if t1.len() == 0 {
        Result::Err(InvalidAlignment::MissingOrder)
    } else {
        let r2 = spec_skip_ws(r1.skip(t1.len() as int));
        let t2 = spec_ws_token(r2);
        if t2.len() == 0 {
            Result::Err(InvalidAlignment::MissingMorality)
        } else {
            match spec_parse_order(t1) {
                Result::Err(_) => Result::Err(InvalidAlignment::InvalidOrder),
                Result::Ok(o) => match spec_parse_morality(t2) {
                    Result::Err(_) => Result::Err(InvalidAlignment::InvalidMorality),
                    Result::Ok(m) => Result::Ok((o, m)),
                },
            }
        }
    }
}

/// Reads an alignment pair back from its textual form.
pub fn parse_alignment(s: &str) -> (r: Result<(Order, Morality), InvalidAlignment>)
    ensures
        r == spec_parse_alignment(s@),
{
    let n = s.unicode_len();
    let mut i: usize = 0;
    while i < n && is_ws_char(s.get_char(i))
        invariant
            0 <= i <= n,
            n == s@.len(),
            forall|k: int| 0 <= k < i ==> spec_is_ws(s@[k]),
        decreases n - i,
    {
        i = i + 1;
    }
    let mut j: usize = i;
    while j < n && !is_ws_char(s.get_char(j))
        invariant
            i <= j <= n,
            n == s@.len(),
            forall|k: int| i <= k < j ==> !spec_is_ws(s@[k]),
        decreases n - j,
    {
        j = j + 1;
    }
    proof {
        lemma_skip_ws_at(s@, i as int);
        let r1 = s@.skip(i as int);
        assert forall|k: int| 0 <= k < j - i implies !spec_is_ws(r1[k]) by {
            assert(r1[k] == s@[i + k]);
        }
        if j < n {
            assert(r1[j - i] == s@[j as int]);
        }
        lemma_ws_token_at(r1, j - i);
        assert(r1.subrange(0, j - i) =~= s@.subrange(i as int, j as int));
    }
    if j == i {
        return Result::Err(InvalidAlignment::MissingOrder);
    }
    let t1 = s.substring_char(i, j);
    let mut k: usize = j;
    while k < n && is_ws_char(s.get_char(k))
        invariant
            j <= k <= n,
            n == s@.len(),
            forall|m: int| j <= m < k ==> spec_is_ws(s@[m]),
        decreases n - k,
    {
        k = k + 1;
    }
    let mut l: usize = k;
    while l < n && !is_ws_char(s.get_char(l))
        invariant
            k <= l <= n,
            n == s@.len(),
            forall|m: int| k <= m < l ==> !spec_is_ws(s@[m]),
        decreases n - l,
    {
        l = l + 1;
    }
    proof {
        let r1 = s@.skip(i as int);
        assert(r1.skip(j - i) =~= s@.skip(j as int));
        let rest = s@.skip(j as int);
        assert forall|m: int| 0 <= m < k - j implies spec_is_ws(rest[m]) by {
            assert(rest[m] == s@[j + m]);
        }
        if k < n {
            assert(rest[k - j] == s@[k as int]);
        }
        lemma_skip_ws_at(rest, k - j);
        assert(rest.skip(k - j) =~= s@.skip(k as int));
        let r2 = s@.skip(k as int);
        assert forall|m: int| 0 <= m < l - k implies !spec_is_ws(r2[m]) by {
            assert(r2[m] == s@[k + m]);
        }
        if l < n {
            assert(r2[l - k] == s@[l as int]);
        }
        lemma_ws_token_at(r2, l - k);
        assert(r2.subrange(0, l - k) =~= s@.subrange(k as int, l as int));
    }
    if l == k {
        return Result::Err(InvalidAlignment::MissingMorality);
    }
    let t2 = s.substring_char(k, l);
    match Order::from_str(t1) {
        Result::Err(_) => Result::Err(InvalidAlignment::InvalidOrder),
        Result::Ok(o) => match Morality::from_str(t2) {
            Result::Err(_) => Result::Err(InvalidAlignment::InvalidMorality),
            Result::Ok(m) => Result::Ok((o, m)),
        },
    }
}

/// The playable species.
#[derive(Debug, Clone, Copy, PartialEq, Eq, Hash, Structural)]
pub enum Species {
    Human,
    Elf,
    Dwarf,
    Orc,
    Halfling,
    Gnome,
    Tiefling,
}

/// The character classes levels are taken in.
#[derive(Debug, Clone, Copy, PartialEq, Eq, Hash, Structural)]
pub enum Class {
    Artificer,
    Barbarian,
    Bard,
    Cleric,
    Druid,
    Fighter,
    Monk,
    Paladin,
    Ranger,
    Rogue,
    Sorcerer,
    Wizard,
}

#[derive(Debug, Clone, Copy, PartialEq, Eq, Structural)]
pub enum Sex {
    Male,
    Female,
}

pub open spec fn spec_sum_levels(s: Seq<(Class, u32)>) -> int
    decreases s.len(),
{
    if s.len() == 0 {
        0
    } else {
        s[0].1 + spec_sum_levels(s.drop_first())
    }
}

pub proof fn lemma_sum_levels_nonneg(s: Seq<(Class, u32)>)
    ensures
        spec_sum_levels(s) >= 0,
    decreases s.len(),
{
    if s.len() > 0 {
        lemma_sum_levels_nonneg(s.drop_first());
    }
}

pub proof fn lemma_sum_levels_split(s: Seq<(Class, u32)>, i: int)
    requires
        0 <= i <= s.len(),
    ensures
        spec_sum_levels(s) == spec_sum_levels(s.take(i)) + spec_sum_levels(s.skip(i)),
    decreases i,
{
    if i == 0 {
        assert(s.take(0) =~= Seq::<(Class, u32)>::empty());
        assert(s.skip(0) =~= s);
    } else {
        lemma_sum_levels_split(s.drop_first(), i - 1);
        assert(s.take(i).drop_first() =~= s.drop_first().take(i - 1));
        assert(s.skip(i) =~= s.drop_first().skip(i - 1));
        assert(s.take(i)[0] == s[0]);
        assert(spec_sum_levels(s.take(i)) == s[0].1 + spec_sum_levels(s.drop_first().take(i - 1)));
    }
}

/// Whether a class list is a valid level table: each class at most
/// once, and the total level still representable.
pub open spec fn spec_classes_wf(s: Seq<(Class, u32)>) -> bool {
    &&& forall|i: int, j: int| 0 <= i < j < s.len() ==> s[i].0 != s[j].0
    &&& spec_sum_levels(s) <= u32::MAX
}

/// A character record: identity, class levels (each class at most
/// once, in the order taken), alignment and ability scores.
#[derive(Debug, PartialEq, Eq)]
pub struct Character {
    pub name: String,
    pub species: Species,
    pub classes: Vec<(Class, u32)>,
    pub alignment: (Order, Morality),
    pub origin: String,
    pub strength: u32,
    pub dexterity: u32,
    pub constitution: u32,
    pub intelligence: u32,
    pub wisdom: u32,
    pub charisma: u32,
}

impl Character {
    pub open spec fn classes_wf(self) -> bool {
        spec_classes_wf(self.classes@)
    }

    /// A blank record: placeholder name and origin, human, true
    /// neutral, no classes, every ability score ten.
    pub fn new() -> (r: Character)
        ensures
            r.name@ == "<unnamed>"@,
            r.species == Species::Human,
            r.classes@ == Seq::<(Class, u32)>::empty(),
            r.alignment == (Order::Neutral, Morality::Neutral),
            r.origin@ == "<not chosen>"@,
            r.strength == 10 && r.dexterity == 10 && r.constitution == 10,
            r.intelligence == 10 && r.wisdom == 10 && r.charisma == 10,
            r.classes_wf(),
    {
        let r = Character {
            name: String::from_str("<unnamed>"),
            species: Species::Human,
            classes: Vec::new(),
            alignment: (Order::Neutral, Morality::Neutral),
            origin: String::from_str("<not chosen>"),
            strength: 10,
            dexterity: 10,
            constitution: 10,
            intelligence: 10,
            wisdom: 10,
            charisma: 10,
        };
        proof {
            assert(r.classes@ =~= Seq::<(Class, u32)>::empty());
        }
        r
    }

    /// The sum of all class levels.
    pub fn total_level(&self) -> (r: u32)
        requires
            self.classes_wf(),
        ensures
            r == spec_sum_levels(self.classes@),
    {
        let mut acc: u32 = 0;
        let mut i: usize = 0;
        while i < self.classes.len()
            invariant
                0 <= i <= self.classes@.len(),
                spec_classes_wf(self.classes@),
                acc == spec_sum_levels(self.classes@.take(i as int)),
            decreases self.classes@.len() - i,
        {
            proof {
                lemma_sum_levels_split(self.classes@, i as int);
                assert(self.classes@.skip(i as int)[0] == self.classes@[i as int]);
                assert(self.classes@.skip(i as int).drop_first() =~= self.classes@.skip(
                    i as int + 1,
                ));
                lemma_sum_levels_nonneg(self.classes@.skip(i as int + 1));
                assert(self.classes@.take(i as int + 1).drop_last() =~= self.classes@.take(
                    i as int,
                ));
                assert(self.classes@.take(i as int + 1) =~= self.classes@.take(i as int).push(
                    self.classes@[i as int],
                ));
                lemma_sum_levels_push(self.classes@.take(i as int), self.classes@[i as int]);
            }
            acc = acc + self.classes[i].1;
            i = i + 1;
        }
        proof {
            assert(self.classes@.take(self.classes@.len() as int) =~= self.classes@);
        }
        acc
    }

    /// Whether a class list may be installed as this record's level
    /// table.
    pub fn classes_ok(classes: &Vec<(Class, u32)>) -> (r: bool)
        ensures
            r == spec_classes_wf(classes@),
    {
        let mut i: usize = 0;
        while i < classes.len()
            invariant
                0 <= i <= classes@.len(),
                forall|a: int, b: int| 0 <= a < b < classes@.len() && a < i ==> classes@[a].0
                    != classes@[b].0,
            decreases classes@.len() - i,
        {
            let mut j: usize = i + 1;
            while j < classes.len()
                invariant
                    0 <= i < j <= classes@.len(),
                    forall|b: int| i < b < j ==> classes@[i as int].0 != classes@[b].0,
                decreases classes@.len() - j,
            {
                if classes[i].0 == classes[j].0 {
                    return false;
                }
                j = j + 1;
            }
            i = i + 1;
        }
        let mut acc: u64 = 0;
        let mut k: usize = 0;
        while k < classes.len()
            invariant
                0 <= k <= classes@.len(),
                acc == spec_sum_levels(classes@.take(k as int)),
                acc <= u32::MAX,
            decreases classes@.len() - k,
        {
            proof {
                assert(classes@.take(k as int + 1).drop_last() =~= classes@.take(k as int));
                assert(classes@.take(k as int + 1) =~= classes@.take(k as int).push(
                    classes@[k as int],
                ));
                lemma_sum_levels_push(classes@.take(k as int), classes@[k as int]);
            }
            acc = acc + classes[k].1 as u64;
            if acc > u32::MAX as u64 {
                proof {
                    lemma_sum_levels_split(classes@, k as int + 1);
                    lemma_sum_levels_nonneg(classes@.skip(k as int + 1));
                }
                return false;
            }
            k = k + 1;
        }
        proof {
            assert(classes@.take(classes@.len() as int) =~= classes@);
        }
        true
    }

    /// Installs a valid class list.
    pub fn set_classes(&mut self, classes: Vec<(Class, u32)>)
        requires
            spec_classes_wf(classes@),
        ensures
            final(self).classes@ == classes@,
            final(self).classes_wf(),
            final(self).name == old(self).name,
            final(self).species == old(self).species,
            final(self).alignment == old(self).alignment,
            final(self).origin == old(self).origin,
            final(self).strength == old(self).strength,
            final(self).dexterity == old(self).dexterity,
            final(self).constitution == old(self).constitution,
            final(self).intelligence == old(self).intelligence,
            final(self).wisdom == old(self).wisdom,
            final(self).charisma == old(self).charisma,
    {
        self.classes = classes;
    }

    /// The class levels, in the order taken.
    pub fn class_levels(&self) -> (r: &Vec<(Class, u32)>)
        ensures
            r@ == self.classes@,
    {
        &self.classes
    }
}

pub proof fn lemma_sum_levels_push(s: Seq<(Class, u32)>, x: (Class, u32))
    ensures
        spec_sum_levels(s.push(x)) == spec_sum_levels(s) + x.1,
    decreases s.len(),
{
    if s.len() == 0 {
        assert(s.push(x)[0] == x);
        assert(s.push(x).drop_first() =~= Seq::<(Class, u32)>::empty());
        assert(spec_sum_levels(Seq::<(Class, u32)>::empty()) == 0);
    } else {
        assert(s.push(x)[0] == s[0]);
        assert(s.push(x).drop_first() =~= s.drop_first().push(x));
        lemma_sum_levels_push(s.drop_first(), x);
    }
}

} // verus!

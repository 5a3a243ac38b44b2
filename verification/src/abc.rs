//! Data model for a parsed song: pitch classes, note lengths, notes,
//! headers, and the song container itself.

use vstd::prelude::*;

verus! {

/// Twelve-tone pitch class of the equal-tempered scale, one variant per
/// semitone, starting from the reference class A.
#[derive(Debug, Copy, Clone, PartialEq, Eq, Structural, Hash)]
pub enum PitchClass {
    A,
    ASharpBFlat,
    B,
    C,
    CSharpDFlat,
    D,
    DSharpEFlat,
    E,
    F,
    FSharpGFlat,
    G,
    GSharpAFlat,
}

impl PitchClass {
    /// Semitone distance of this class above the reference class A,
    /// in the range `0 ..= 11`.
    pub open spec fn spec_half_steps_from_a(self) -> int {
        match self {
            PitchClass::A => 0,
            PitchClass::ASharpBFlat => 1,
            PitchClass::B => 2,
            PitchClass::C => 3,
            PitchClass::CSharpDFlat => 4,
            PitchClass::D => 5,
            PitchClass::DSharpEFlat => 6,
            PitchClass::E => 7,
            PitchClass::F => 8,
            PitchClass::FSharpGFlat => 9,
            PitchClass::G => 10,
            PitchClass::GSharpAFlat => 11,
        }
    }

    /// The class one semitone up, wrapping from G#/Ab back to A.
    pub open spec fn spec_half_step_up(self) -> PitchClass {
        match self {
            PitchClass::A => PitchClass::ASharpBFlat,
            PitchClass::ASharpBFlat => PitchClass::B,
            PitchClass::B => PitchClass::C,
            PitchClass::C => PitchClass::CSharpDFlat,
            PitchClass::CSharpDFlat => PitchClass::D,
            PitchClass::D => PitchClass::DSharpEFlat,
            PitchClass::DSharpEFlat => PitchClass::E,
            PitchClass::E => PitchClass::F,
            PitchClass::F => PitchClass::FSharpGFlat,
            PitchClass::FSharpGFlat => PitchClass::G,
            PitchClass::G => PitchClass::GSharpAFlat,
            PitchClass::GSharpAFlat => PitchClass::A,
        }
    }

    /// The class one semitone down, wrapping from A up to G#/Ab.
    pub open spec fn spec_half_step_down(self) -> PitchClass {
        match self {
            PitchClass::A => PitchClass::GSharpAFlat,
            PitchClass::ASharpBFlat => PitchClass::A,
            PitchClass::B => PitchClass::ASharpBFlat,
            PitchClass::C => PitchClass::B,
            PitchClass::CSharpDFlat => PitchClass::C,
            PitchClass::D => PitchClass::CSharpDFlat,
            PitchClass::DSharpEFlat => PitchClass::D,
            PitchClass::E => PitchClass::DSharpEFlat,
            PitchClass::F => PitchClass::E,
            PitchClass::FSharpGFlat => PitchClass::F,
            PitchClass::G => PitchClass::FSharpGFlat,
            PitchClass::GSharpAFlat => PitchClass::G,
        }
    }

    /// The class one semitone up, wrapping from G#/Ab back to A.
    pub fn half_step_up(&self) -> (r: Self)
        ensures
            r == self.spec_half_step_up(),
            r.spec_half_steps_from_a() == (self.spec_half_steps_from_a() + 1) % 12,
    {
        match self {
            PitchClass::A => PitchClass::ASharpBFlat,
            PitchClass::ASharpBFlat => PitchClass::B,
            PitchClass::B => PitchClass::C,
            PitchClass::C => PitchClass::CSharpDFlat,
            PitchClass::CSharpDFlat => PitchClass::D,
            PitchClass::D => PitchClass::DSharpEFlat,
            PitchClass::DSharpEFlat => PitchClass::E,
            PitchClass::E => PitchClass::F,
            PitchClass::F => PitchClass::FSharpGFlat,
            PitchClass::FSharpGFlat => PitchClass::G,
            PitchClass::G => PitchClass::GSharpAFlat,
            PitchClass::GSharpAFlat => PitchClass::A,
        }
    }

    /// The class one semitone down, wrapping from A up to G#/Ab.
    pub fn half_step_down(&self) -> (r: Self)
        ensures
            r == self.spec_half_step_down(),
            r.spec_half_steps_from_a() == (self.spec_half_steps_from_a() + 11) % 12,
    {
        match self {
            PitchClass::A => PitchClass::GSharpAFlat,
            PitchClass::ASharpBFlat => PitchClass::A,
            PitchClass::B => PitchClass::ASharpBFlat,
            PitchClass::C => PitchClass::B,
            PitchClass::CSharpDFlat => PitchClass::C,
            PitchClass::D => PitchClass::CSharpDFlat,
            PitchClass::DSharpEFlat => PitchClass::D,
            PitchClass::E => PitchClass::DSharpEFlat,
            PitchClass::F => PitchClass::E,
            PitchClass::FSharpGFlat => PitchClass::F,
            PitchClass::G => PitchClass::FSharpGFlat,
            PitchClass::GSharpAFlat => PitchClass::G,
        }
    }

    /// Semitone distance above the reference class A.
    pub fn half_steps_from_a(&self) -> (r: usize)
        ensures
            r == self.spec_half_steps_from_a(),
    {
        match self {
            PitchClass::A => 0,
            PitchClass::ASharpBFlat => 1,
            PitchClass::B => 2,
            PitchClass::C => 3,
            PitchClass::CSharpDFlat => 4,
            PitchClass::D => 5,
            PitchClass::DSharpEFlat => 6,
            PitchClass::E => 7,
            PitchClass::F => 8,
            PitchClass::FSharpGFlat => 9,
            PitchClass::G => 10,
            PitchClass::GSharpAFlat => 11,
        }
    }

    /// The natural class named by a letter `a ..= g` (either case).
    pub open spec fn spec_from_char(c: char) -> Result<PitchClass, ()> {
        if c == 'a' || c == 'A' {
            Ok(PitchClass::A)
        } else if c == 'b' || c == 'B' {
            Ok(PitchClass::B)
        } else if c == 'c' || c == 'C' {
            Ok(PitchClass::C)
        } else if c == 'd' || c == 'D' {
            Ok(PitchClass::D)
        } else if c == 'e' || c == 'E' {
            Ok(PitchClass::E)
        } else if c == 'f' || c == 'F' {
            Ok(PitchClass::F)
        } else if c == 'g' || c == 'G' {
            Ok(PitchClass::G)
        } else {
            Err(())
        }
    }

    /// Reads a natural pitch letter; any other character is rejected.
    pub fn try_from_char(c: char) -> (r: Result<PitchClass, ()>)
        ensures
            r == PitchClass::spec_from_char(c),
    {
        match c {
            'a' | 'A' => Ok(PitchClass::A),
            'b' | 'B' => Ok(PitchClass::B),
            'c' | 'C' => Ok(PitchClass::C),
            'd' | 'D' => Ok(PitchClass::D),
            'e' | 'E' => Ok(PitchClass::E),
            'f' | 'F' => Ok(PitchClass::F),
            'g' | 'G' => Ok(PitchClass::G),
            _ => Err(()),
        }
    }
}

/// Semitone distance from the reference pitch (class A, octave 0) of the
/// pitch `(class, octave)`. The frequency of a pitch is
/// 440 Hz times 2 to the power of one twelfth of this value, so adding
/// twelve half-steps doubles the frequency.
pub open spec fn spec_pitch_half_steps(class: PitchClass, octave: int) -> int {
    octave * 12 + class.spec_half_steps_from_a()
}

/// The reference pitch (class A, octave 0) lies zero half-steps from the
/// reference, so its frequency is exactly 440 Hz.
pub proof fn lemma_reference_pitch_is_reference()
    ensures
        spec_pitch_half_steps(PitchClass::A, 0) == 0,
{
}

/// Octave invariance: raising the octave by one adds exactly twelve
/// half-steps, for every class and octave. Since frequency is
/// 440 Hz · 2^(half_steps / 12), one octave up doubles the frequency.
pub proof fn lemma_octave_up_adds_twelve(class: PitchClass, octave: int)
    ensures
        spec_pitch_half_steps(class, octave + 1) == spec_pitch_half_steps(class, octave) + 12,
{
}

/// Musical pitch or a rest.
#[derive(Debug, Copy, Clone, PartialEq, Eq, Structural, Hash)]
pub enum PitchOrRest {
    Pitch {
        class: PitchClass,
        /// Octaves above or below the base octave.
        octave: i8,
    },
    Rest,
}

impl PitchOrRest {
    /// Semitone distance from the reference pitch; a rest has none.
    pub open spec fn spec_half_steps(self) -> Option<i16> {
        match self {
            PitchOrRest::Pitch { class, octave } => Some(
                (octave * 12 + class.spec_half_steps_from_a()) as i16,
            ),
            PitchOrRest::Rest => None,
        }
    }

    /// Semitone distance from the reference pitch (class A, octave 0);
    /// `None` for a rest, which has no frequency.
    pub fn half_steps_from_reference(&self) -> (r: Option<i16>)
        ensures
            r == self.spec_half_steps(),
            r matches Some(h) ==> -1536 <= h <= 1535,
    {
        match self {
            PitchOrRest::Pitch { class, octave } => {
                let steps: i16 = (*octave as i16) * 12 + class.half_steps_from_a() as i16;
                Some(steps)
            },
            PitchOrRest::Rest => None,
        }
    }
}

/// Length of a note relative to the base (quarter-note) unit.
#[derive(Debug, Copy, Clone, PartialEq, Eq, Structural, Hash)]
pub enum Length {
    /// Exactly one base unit.
    Unit,
    /// That many base units.
    Multiple(u64),
    /// One base unit divided by that number.
    Division(u64),
}

/// A single note.
#[derive(Debug, Copy, Clone, PartialEq, Eq, Structural, Hash)]
pub struct Note {
    pub pitch: PitchOrRest,
    pub length: Length,
}

/// The version stated by a song file.
#[derive(Debug, Copy, Clone, PartialEq, Eq, Structural)]
pub struct Version {
    pub major: u8,
    pub minor: u8,
}

/// One header line group: a key character and the values seen for it,
/// in input order.
#[derive(Debug, Clone)]
pub struct HeaderEntry {
    pub key: char,
    pub values: Vec<String>,
}

/// First position in `entries` that carries `key`, or the length of
/// `entries` when no entry does.
pub open spec fn spec_header_index(entries: Seq<HeaderEntry>, key: char) -> int
    decreases entries.len(),
{
    if entries.len() == 0 {
        0
    } else if entries[0].key == key {
        0
    } else {
        1 + spec_header_index(entries.subrange(1, entries.len() as int), key)
    }
}

/// `spec_header_index` names the first position whose entry carries `key`,
/// and lies at the length of `entries` exactly when no entry does.
pub proof fn lemma_header_index(entries: Seq<HeaderEntry>, key: char)
    ensures
        0 <= spec_header_index(entries, key) <= entries.len(),
        spec_header_index(entries, key) < entries.len() ==> entries[spec_header_index(
            entries,
            key,
        )].key == key,
        forall|j: int| 0 <= j < spec_header_index(entries, key) ==> entries[j].key != key,
    decreases entries.len(),
{
    if entries.len() > 0 && entries[0].key != key {
        let sub = entries.subrange(1, entries.len() as int);
        lemma_header_index(sub, key);
        assert forall|j: int| 0 <= j < spec_header_index(entries, key) implies entries[j].key
            != key by {
            if j > 0 {
                assert(entries[j] == sub[j - 1]);
            }
        }
    }
}

/// `pairs` grouped with `(key, val)` taken in: the value joins the
/// first group that carries `key`, or a new group at the end.
pub open spec fn spec_group_insert(
    groups: Seq<(char, Seq<Seq<char>>)>,
    key: char,
    val: Seq<char>,
) -> Seq<(char, Seq<Seq<char>>)>
    decreases groups.len(),
{
    if groups.len() == 0 {
        seq![(key, seq![val])]
    } else if groups[0].0 == key {
        seq![(groups[0].0, groups[0].1.push(val))] + groups.subrange(1, groups.len() as int)
    } else {
        seq![groups[0]] + spec_group_insert(
            groups.subrange(1, groups.len() as int),
            key,
            val,
        )
    }
}

/// Key/value pairs grouped by key in order of first appearance; within
/// a group the values keep input order.
pub open spec fn spec_group_pairs(pairs: Seq<(char, Seq<char>)>) -> Seq<(char, Seq<Seq<char>>)>
    decreases pairs.len(),
{
    if pairs.len() == 0 {
        Seq::empty()
    } else {
        spec_group_insert(spec_group_pairs(pairs.drop_last()), pairs.last().0, pairs.last().1)
    }
}

/// Inserting into groups whose first occurrence of `key` sits at `i`
/// updates that group in place, or appends a fresh group when no group
/// carries the key.
pub proof fn lemma_group_insert_at(
    groups: Seq<(char, Seq<Seq<char>>)>,
    key: char,
    val: Seq<char>,
    i: int,
)
    requires
        0 <= i <= groups.len(),
        forall|j: int| 0 <= j < i ==> groups[j].0 != key,
        i < groups.len() ==> groups[i].0 == key,
    ensures
        spec_group_insert(groups, key, val) == (if i < groups.len() {
            groups.update(i, (key, groups[i].1.push(val)))
        } else {
            groups.push((key, seq![val]))
        }),
    decreases groups.len(),
{
    if groups.len() == 0 {
        assert(spec_group_insert(groups, key, val) =~= groups.push((key, seq![val])));
    } else if groups[0].0 == key {
        assert(i == 0);
        assert(spec_group_insert(groups, key, val) =~= groups.update(
            0,
            (key, groups[0].1.push(val)),
        ));
    } else {
        let sub = groups.subrange(1, groups.len() as int);
        assert(forall|j: int| 0 <= j < i - 1 ==> sub[j].0 != key);
        lemma_group_insert_at(sub, key, val, i - 1);
        if i < groups.len() {
            assert(spec_group_insert(groups, key, val) =~= groups.update(
                i,
                (key, groups[i].1.push(val)),
            ));
        } else {
            assert(spec_group_insert(groups, key, val) =~= groups.push((key, seq![val])));
        }
    }
}

/// All header lines of a song, grouped by their key character in order of
/// first appearance; within a group the values keep input order.
#[derive(Debug, Clone)]
pub struct Headers {
    pub entries: Vec<HeaderEntry>,
}

impl Headers {
    /// The grouped view: each entry's key with the views of its values.
    pub open spec fn spec_groups(self) -> Seq<(char, Seq<Seq<char>>)> {
        self.entries@.map(|i: int, e: HeaderEntry| (e.key, e.values@.map(|j: int, v: String| v@)))
    }

    /// An empty header table.
    pub fn new() -> (h: Headers)
        ensures
            h.entries@.len() == 0,
            h.spec_groups() =~= Seq::<(char, Seq<Seq<char>>)>::empty(),
    {
        Headers { entries: Vec::new() }
    }

    /// Appends `value` to the group of `key`, creating the group at the
    /// end when `key` is new.
    pub fn push_value(&mut self, key: char, value: String)
        ensures
            ({
                let i = spec_header_index(old(self).entries@, key);
                &&& i < old(self).entries@.len() ==> {
                    &&& final(self).entries@.len() == old(self).entries@.len()
                    &&& forall|j: int|
                        0 <= j < old(self).entries@.len() && j != i ==> final(self).entries@[j]
                            == old(self).entries@[j]
                    &&& final(self).entries@[i].key == key
                    &&& final(self).entries@[i].values@ == old(self).entries@[i].values@.push(
                        value,
                    )
                }
                &&& i >= old(self).entries@.len() ==> {
                    &&& final(self).entries@.len() == old(self).entries@.len() + 1
                    &&& forall|j: int|
                        0 <= j < old(self).entries@.len() ==> final(self).entries@[j] == old(
                            self,
                        ).entries@[j]
                    &&& final(self).entries@[i].key == key
                    &&& final(self).entries@[i].values@ =~= seq![value]
                }
            }),
            final(self).spec_groups() == spec_group_insert(old(self).spec_groups(), key, value@),
    {
        proof {
            lemma_header_index(self.entries@, key);
        }
        let ghost target = spec_header_index(self.entries@, key);
        let mut i: usize = 0;
        while i < self.entries.len()
            invariant
                i <= self.entries@.len(),
                target == spec_header_index(self.entries@, key),
                0 <= target <= self.entries@.len(),
                target < self.entries@.len() ==> self.entries@[target].key == key,
                forall|j: int| 0 <= j < target ==> self.entries@[j].key != key,
                forall|j: int| 0 <= j < i ==> self.entries@[j].key != key,
                *self == *old(self),
            decreases self.entries@.len() - i,
        {
            if self.entries[i].key == key {
                proof {
                    if target > i {
                        assert(self.entries@[i as int].key != key);
                    }
                    if target < i {
                        assert(self.entries@[target].key != key);
                    }
                }
                let ghost groups0 = self.spec_groups();
                let ghost value_view = value@;
                self.entries[i].values.push(value);
                proof {
                    assert forall|j: int| 0 <= j < i implies groups0[j].0 != key by {
                        assert(groups0[j].0 == old(self).entries@[j].key);
                    }
                    assert(groups0[i as int].0 == key);
                    lemma_group_insert_at(groups0, key, value_view, i as int);
                    assert(self.spec_groups() =~~= groups0.update(
                        i as int,
                        (key, groups0[i as int].1.push(value_view)),
                    ));
                }
                return ;
            }
            i += 1;
        }
        let ghost groups0 = self.spec_groups();
        let ghost value_view = value@;
        let mut values: Vec<String> = Vec::new();
        values.push(value);
        self.entries.push(HeaderEntry { key, values });
        proof {
            assert forall|j: int| 0 <= j < groups0.len() implies groups0[j].0 != key by {
                assert(groups0[j].0 == old(self).entries@[j].key);
            }
            lemma_group_insert_at(groups0, key, value_view, groups0.len() as int);
            assert(self.spec_groups() =~~= groups0.push((key, seq![value_view])));
        }
    }

    /// The values recorded for `key`, in input order, or `None` when the
    /// key never appeared.
    pub fn get(&self, key: char) -> (r: Option<&Vec<String>>)
        ensures
            ({
                let i = spec_header_index(self.entries@, key);
                if i < self.entries@.len() {
                    r matches Some(v) && *v == self.entries@[i].values
                } else {
                    r is None
                }
            }),
    {
        proof {
            lemma_header_index(self.entries@, key);
        }
        let ghost target = spec_header_index(self.entries@, key);
        let mut i: usize = 0;
        while i < self.entries.len()
            invariant
                i <= self.entries@.len(),
                target == spec_header_index(self.entries@, key),
                0 <= target <= self.entries@.len(),
                target < self.entries@.len() ==> self.entries@[target].key == key,
                forall|j: int| 0 <= j < target ==> self.entries@[j].key != key,
                forall|j: int| 0 <= j < i ==> self.entries@[j].key != key,
            decreases self.entries@.len() - i,
        {
            if self.entries[i].key == key {
                proof {
                    if target > i {
                        assert(self.entries@[i as int].key != key);
                    }
                    if target < i {
                        assert(self.entries@[target].key != key);
                    }
                }
                return Some(&self.entries[i].values);
            }
            i += 1;
        }
        None
    }
}

/// Everything read from one song file: its stated version, its header
/// lines, and the ordered list of notes to play.
#[derive(Debug, Clone)]
pub struct ABC {
    pub version: Option<Version>,
    pub headers: Headers,
    pub notes: Vec<Note>,
}

impl Default for ABC {
    /// An empty song with no version and no headers.
    fn default() -> (r: Self)
        ensures
            r.version is None,
            r.headers.entries@.len() == 0,
            r.notes@.len() == 0,
    {
        ABC { version: None, headers: Headers::new(), notes: Vec::new() }
    }
}

} // verus!

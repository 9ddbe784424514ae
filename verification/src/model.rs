//! The ML model surface the policy engine sees: the parsed feature names
//! of a model's metadata, the label actions, and the errors an inference
//! request can answer with. Loading and running models is the inference
//! worker's job, outside the verified core.

use vstd::prelude::*;
use vstd::string::StrSliceExecFns;

use crate::action::{spec_lower_char, Action};

verus! {

/// Which derivation of a packet a feature reads.
#[derive(Clone, Copy, Debug, PartialEq, Eq, Structural)]
pub enum PacketFeature {
    /// The packet's direction: from or to the client.
    Direction,
    /// The packet's payload length.
    Length,
    /// The packet's payload entropy.
    Entropy,
    /// The payload length, signed by direction.
    DirSignSize,
    /// How deep the packet stands in a burst of one direction.
    BurstDepth,
}

/// One input feature of a model: a window index, a packet index, and the
/// derivation to read.
#[derive(Clone, Copy, Debug, PartialEq, Eq, Structural)]
pub struct Feature {
    pub window_num: usize,
    pub packet_num: usize,
    pub feature: PacketFeature,
}

/// Why a feature name could not be parsed.
#[derive(Clone, Copy, Debug, PartialEq, Eq, Structural)]
pub enum FeatureParseError {
    MissingWindowIndex,
    InvalidWindowIndex,
    MissingPacketIndex,
    InvalidPacketIndex,
    MissingFeatureName,
    InvalidFeatureName,
}

/// One output label of a model: its name and the action its argmax takes.
#[derive(Clone, Debug)]
pub struct LabelMetadata {
    pub name: String,
    pub action: Action,
}

/// Why an inference request failed.
#[derive(Clone, Copy, Debug, PartialEq, Eq, Structural)]
pub enum ModelError {
    /// No model of the requested name is loaded.
    ModelNotFound,
    /// The feature vector does not fit the model's input shape.
    ShapeMismatch,
    /// The inference itself failed.
    Inference,
}

/// The first position of `c` at or after `from`, or the end.
pub open spec fn spec_find(s: Seq<char>, c: char, from: int) -> int
    decreases s.len() - from,
{
    if from < 0 || from >= s.len() {
        s.len() as int
    } else if s[from] == c {
        from
    } else {
        spec_find(s, c, from + 1)
    }
}

/// The first position at or after `from`, below `to`, that does not hold
/// `c`, or `to`.
pub open spec fn spec_skip_char(s: Seq<char>, c: char, from: int, to: int) -> int
    decreases to - from,
{
    if from >= to {
        to
    } else if s[from] == c {
        spec_skip_char(s, c, from + 1, to)
    } else {
        from
    }
}

/// Whether a character is a decimal digit.
pub open spec fn spec_is_digit(c: char) -> bool {
    '0' <= c && c <= '9'
}

/// The value of the digits between `from` and `to`, most significant
/// first.
pub open spec fn spec_digits_value(s: Seq<char>, from: int, to: int) -> int
    decreases to - from,
{
    if from >= to {
        0
    } else {
        spec_digits_value(s, from, to - 1) * 10 + (s[to - 1] as u32 - 48)
    }
}

/// The parsed number between `from` and `to`: it must be non-empty, all
/// digits, and fit the machine's word.
pub open spec fn spec_parse_num(s: Seq<char>, from: int, to: int) -> Option<int> {
    if from < to && (forall|i: int| from <= i < to ==> spec_is_digit(#[trigger] s[i]))
        && spec_digits_value(s, from, to) <= usize::MAX {
        Some(spec_digits_value(s, from, to))
    } else {
        None
    }
}

/// The feature a lower-cased name between `from` and `to` means.
pub open spec fn spec_feature_of_name(s: Seq<char>, from: int, to: int) -> Option<PacketFeature> {
    let name = s.subrange(from, to).map_values(|c: char| spec_lower_char(c));
    if name == "entropy"@ {
        Some(PacketFeature::Entropy)
    } else if name == "size"@ {
        Some(PacketFeature::Length)
    } else if name == "direction"@ {
        Some(PacketFeature::Direction)
    } else if name == "dirsignsize"@ {
        Some(PacketFeature::DirSignSize)
    } else if name == "burstdepth"@ {
        Some(PacketFeature::BurstDepth)
    } else {
        None
    }
}

/// What parsing a feature name yields: three tokens split on underscores,
/// the first a window index behind a `w`, the second a packet index
/// behind a `p`, the third the derivation's name, read case-insensitively;
/// anything after a third underscore is ignored.
pub open spec fn spec_parse_feature(s: Seq<char>) -> Result<Feature, FeatureParseError> {
    let u1 = spec_find(s, '_', 0);
    let d1 = spec_skip_char(s, 'w', 0, u1);
    match spec_parse_num(s, d1, u1) {
        None => Err(FeatureParseError::InvalidWindowIndex),
        Some(window) => if u1 >= s.len() {
            Err(FeatureParseError::MissingPacketIndex)
        } else {
            let u2 = spec_find(s, '_', u1 + 1);
            let d2 = spec_skip_char(s, 'p', u1 + 1, u2);
            match spec_parse_num(s, d2, u2) {
                None => Err(FeatureParseError::InvalidPacketIndex),
                Some(packet) => if u2 >= s.len() {
                    Err(FeatureParseError::MissingFeatureName)
                } else {
                    let u3 = spec_find(s, '_', u2 + 1);
                    match spec_feature_of_name(s, u2 + 1, u3) {
                        None => Err(FeatureParseError::InvalidFeatureName),
                        Some(feature) => Ok(
                            Feature {
                                window_num: window as usize,
                                packet_num: packet as usize,
                                feature,
                            },
                        ),
                    }
                },
            }
        },
    }
}

/// Find the first underscore at or after `from`.
fn find_underscore(s: &str, from: usize) -> (r: usize)
    requires
        from <= s@.len(),
    ensures
        r == spec_find(s@, '_', from as int),
        from <= r <= s@.len(),
{
    let n = s.unicode_len();
    let mut i: usize = from;
    while i < n
        invariant
            from <= i <= n,
            n == s@.len(),
            spec_find(s@, '_', from as int) == spec_find(s@, '_', i as int),
        decreases n - i,
    {
        if s.get_char(i) == '_' {
            return i;
        }
        i = i + 1;
    }
    n
}

/// Skip a run of `c` between `from` and `to`.
fn skip_char(s: &str, c: char, from: usize, to: usize) -> (r: usize)
    requires
        from <= to <= s@.len(),
    ensures
        r == spec_skip_char(s@, c, from as int, to as int),
        from <= r <= to,
{
    let mut i: usize = from;
    while i < to
        invariant
            from <= i <= to,
            to <= s@.len(),
            spec_skip_char(s@, c, from as int, to as int) == spec_skip_char(
                s@,
                c,
                i as int,
                to as int,
            ),
        decreases to - i,
    {
        if s.get_char(i) != c {
            return i;
        }
        i = i + 1;
    }
    to
}

/// Parse the number between `from` and `to`.
fn parse_num(s: &str, from: usize, to: usize) -> (r: Option<usize>)
    requires
        from <= to <= s@.len(),
    ensures
        match r {
            Some(v) => spec_parse_num(s@, from as int, to as int) == Some(v as int),
            None => spec_parse_num(s@, from as int, to as int) is None,
        },
{
    if from >= to {
        return None;
    }
    let mut value: usize = 0;
    let mut i: usize = from;
    while i < to
        invariant
            from <= i <= to,
            to <= s@.len(),
            forall|k: int| from <= k < i ==> spec_is_digit(#[trigger] s@[k]),
            value == spec_digits_value(s@, from as int, i as int),
        decreases to - i,
    {
        let c = s.get_char(i);
        if c < '0' || c > '9' {
            proof {
                assert(!spec_is_digit(s@[i as int]));
            }
            return None;
        }
        let d = (c as u32 - 48) as usize;
        if value > (usize::MAX - d) / 10 {
            proof {
                assert(spec_digits_value(s@, from as int, i + 1) == value * 10 + d);
                if forall|k: int| from <= k < to ==> spec_is_digit(#[trigger] s@[k]) {
                    lemma_digits_value_monotonic(s@, from as int, i + 1, to as int);
                }
            }
            return None;
        }
        value = value * 10 + d;
        i = i + 1;
    }
    Some(value)
}

/// A longer run of digits is worth at least as much.
proof fn lemma_digits_value_monotonic(s: Seq<char>, from: int, mid: int, to: int)
    requires
        from <= mid <= to,
        forall|k: int| from <= k < to ==> spec_is_digit(#[trigger] s[k]),
    ensures
        spec_digits_value(s, from, mid) <= spec_digits_value(s, from, to),
    decreases to - mid,
{
    if mid < to {
        lemma_digits_value_monotonic(s, from, mid + 1, to);
        assert(spec_digits_value(s, from, mid + 1) == spec_digits_value(s, from, mid) * 10 + (
        s[mid] as u32 - 48));
        lemma_digits_value_nonneg(s, from, mid);
    }
}

/// The value of a digit run is never negative.
proof fn lemma_digits_value_nonneg(s: Seq<char>, from: int, to: int)
    requires
        forall|k: int| from <= k < to ==> spec_is_digit(#[trigger] s[k]),
    ensures
        spec_digits_value(s, from, to) >= 0,
    decreases to - from,
{
    if from < to {
        lemma_digits_value_nonneg(s, from, to - 1);
    }
}

/// Compare the lower-cased characters between `from` and `to` with a
/// literal.
fn range_lower_eq(s: &str, from: usize, to: usize, lit: &str) -> (r: bool)
    requires
        from <= to <= s@.len(),
    ensures
        r == (s@.subrange(from as int, to as int).map_values(|c: char| spec_lower_char(c))
            == lit@),
{
    let m = lit.unicode_len();
    if to - from != m {
        proof {
            assert(s@.subrange(from as int, to as int).map_values(
                |c: char| spec_lower_char(c),
            ).len() == to - from);
        }
        return false;
    }
    let mut i: usize = 0;
    while i < m
        invariant
            i <= m,
            from + m == to,
            to <= s@.len(),
            m == lit@.len(),
            forall|k: int| 0 <= k < i ==> spec_lower_char(s@[from + k]) == lit@[k],
        decreases m - i,
    {
        let c = s.get_char(from + i);
        let folded: char = if c >= 'A' && c <= 'Z' {
            (((c as u8) + 32) as u8) as char
        } else {
            c
        };
        if folded != lit.get_char(i) {
            proof {
                let mapped = s@.subrange(from as int, to as int).map_values(
                    |c: char| spec_lower_char(c),
                );
                assert(mapped[i as int] == spec_lower_char(s@[from + i]));
                if mapped == lit@ {
                    assert(mapped[i as int] == lit@[i as int]);
                }
            }
            return false;
        }
        i = i + 1;
    }
    proof {
        let mapped = s@.subrange(from as int, to as int).map_values(|c: char| spec_lower_char(c));
        assert(mapped =~= lit@) by {
            assert(forall|k: int| 0 <= k < m ==> mapped[k] == spec_lower_char(s@[from + k]));
        }
    }
    true
}

impl Feature {
    /// Parse a feature name of the form `w<window>_p<packet>_<name>`.
    pub fn from_str(s: &str) -> (r: Result<Feature, FeatureParseError>)
        ensures
            r == spec_parse_feature(s@),
    {
        let u1 = find_underscore(s, 0);
        let d1 = skip_char(s, 'w', 0, u1);
        let window = match parse_num(s, d1, u1) {
            Some(v) => v,
            None => {
                return Err(FeatureParseError::InvalidWindowIndex);
            },
        };
        let n = s.unicode_len();
        if u1 >= n {
            return Err(FeatureParseError::MissingPacketIndex);
        }
        let u2 = find_underscore(s, u1 + 1);
        let d2 = skip_char(s, 'p', u1 + 1, u2);
        let packet = match parse_num(s, d2, u2) {
            Some(v) => v,
            None => {
                return Err(FeatureParseError::InvalidPacketIndex);
            },
        };
        if u2 >= n {
            return Err(FeatureParseError::MissingFeatureName);
        }
        let u3 = find_underscore(s, u2 + 1);
        let feature = if range_lower_eq(s, u2 + 1, u3, "entropy") {
            PacketFeature::Entropy
        } else if range_lower_eq(s, u2 + 1, u3, "size") {
            PacketFeature::Length
        } else if range_lower_eq(s, u2 + 1, u3, "direction") {
            PacketFeature::Direction
        } else if range_lower_eq(s, u2 + 1, u3, "dirsignsize") {
            PacketFeature::DirSignSize
        } else if range_lower_eq(s, u2 + 1, u3, "burstdepth") {
            PacketFeature::BurstDepth
        } else {
            proof {
                lemma_feature_names_distinct();
            }
            return Err(FeatureParseError::InvalidFeatureName);
        };
        proof {
            lemma_feature_names_distinct();
        }
        Ok(Feature { window_num: window, packet_num: packet, feature })
    }
}

/// The five feature names differ pairwise.
proof fn lemma_feature_names_distinct()
    ensures
        "entropy"@ != "size"@,
        "entropy"@ != "direction"@,
        "entropy"@ != "dirsignsize"@,
        "entropy"@ != "burstdepth"@,
        "size"@ != "direction"@,
        "size"@ != "dirsignsize"@,
        "size"@ != "burstdepth"@,
        "direction"@ != "dirsignsize"@,
        "direction"@ != "burstdepth"@,
        "dirsignsize"@ != "burstdepth"@,
{
    reveal_strlit("entropy");
    reveal_strlit("size");
    reveal_strlit("direction");
    reveal_strlit("dirsignsize");
    reveal_strlit("burstdepth");
    assert("entropy"@.len() == 7);
    assert("size"@.len() == 4);
    assert("direction"@.len() == 9);
    assert("dirsignsize"@.len() == 11);
    assert("burstdepth"@.len() == 10);
}

} // verus!

verus! {

/// What one loaded model declares: its name, the two dimensions of its
/// input tensor, and how many probabilities it answers with.
#[derive(Clone, Debug)]
pub struct ModelEntry {
    /// The name inference requests use.
    pub name: String,
    /// The first dimension of the input tensor.
    pub input_rows: usize,
    /// The second dimension of the input tensor.
    pub input_cols: usize,
    /// The length of the probabilities output.
    pub output_len: usize,
}

/// The index of a model name in a table, where it stands.
pub open spec fn spec_find_model(entries: Seq<ModelEntry>, name: Seq<char>) -> Option<int>
    decreases entries.len(),
{
    if entries.len() == 0 {
        None
    } else if entries[0].name@ == name {
        Some(0)
    } else {
        match spec_find_model(entries.skip(1), name) {
            Some(i) => Some(i + 1),
            None => None,
        }
    }
}

/// The models the inference worker holds, keyed by name.
#[derive(Clone, Debug)]
pub struct ModelTable {
    pub entries: Vec<ModelEntry>,
}

impl ModelTable {
    /// The empty table.
    pub fn new() -> (r: ModelTable)
        ensures
            r.entries@.len() == 0,
    {
        ModelTable { entries: Vec::new() }
    }

    /// The index of a model, where one of the name is loaded.
    fn find(&self, name: &String) -> (r: Option<usize>)
        ensures
            match r {
                Some(i) => spec_find_model(self.entries@, name@) == Some(i as int) && i
                    < self.entries@.len(),
                None => spec_find_model(self.entries@, name@) is None,
            },
    {
        let n = self.entries.len();
        let mut i: usize = 0;
        proof {
            assert(self.entries@.skip(0) =~= self.entries@);
        }
        while i < n
            invariant
                i <= n,
                n == self.entries@.len(),
                spec_find_model(self.entries@, name@) == match spec_find_model(
                    self.entries@.skip(i as int),
                    name@,
                ) {
                    Some(j) => Some(j + i),
                    None => None,
                },
            decreases n - i,
        {
            proof {
                assert(self.entries@.skip(i as int)[0] == self.entries@[i as int]);
                assert(self.entries@.skip(i as int).skip(1) =~= self.entries@.skip(i + 1));
            }
            if self.entries[i].name == *name {
                return Some(i);
            }
            i = i + 1;
        }
        proof {
            assert(self.entries@.skip(n as int) =~= Seq::<ModelEntry>::empty());
        }
        None
    }

    /// Install or replace a model: a loaded name is replaced in place, a
    /// new one joins at the tail.
    pub fn insert(&mut self, entry: ModelEntry)
        ensures
            match spec_find_model(old(self).entries@, entry.name@) {
                Some(i) => final(self).entries@ == old(self).entries@.update(i, entry),
                None => final(self).entries@ == old(self).entries@.push(entry),
            },
    {
        match self.find(&entry.name) {
            Some(i) => {
                self.entries.set(i, entry);
            },
            None => {
                self.entries.push(entry);
            },
        }
    }

    /// What the worker decides before it runs anything: an unknown name
    /// is `ModelNotFound`; a feature vector that does not fill the
    /// model's declared input shape is `ShapeMismatch`; otherwise the
    /// model's index and the length of the answer it owes.
    pub open spec fn spec_plan_inference(self, name: Seq<char>, feature_count: int) -> Result<
        (int, int),
        ModelError,
    > {
        match spec_find_model(self.entries@, name) {
            None => Err(ModelError::ModelNotFound),
            Some(i) => {
                let entry = self.entries@[i];
                if feature_count == entry.input_rows * entry.input_cols {
                    Ok((i, entry.output_len as int))
                } else {
                    Err(ModelError::ShapeMismatch)
                }
            },
        }
    }

    /// Decide an inference request: the model's index and owed answer
    /// length, or the error the request earns.
    pub fn plan_inference(&self, name: &String, feature_count: usize) -> (r: Result<
        (usize, usize),
        ModelError,
    >)
        ensures
            match r {
                Ok(pair) => self.spec_plan_inference(name@, feature_count as int) == Ok::<
                    _,
                    ModelError,
                >((pair.0 as int, pair.1 as int)),
                Err(e) => self.spec_plan_inference(name@, feature_count as int) == Err::<
                    (int, int),
                    _,
                >(e),
            },
    {
        let i = match self.find(name) {
            Some(i) => i,
            None => {
                return Err(ModelError::ModelNotFound);
            },
        };
        let entry = &self.entries[i];
        match entry.input_rows.checked_mul(entry.input_cols) {
            Some(expected) if expected == feature_count => Ok((i, entry.output_len)),
            _ => {
                proof {
                    if entry.input_rows * entry.input_cols > usize::MAX {
                        assert(feature_count as int != entry.input_rows * entry.input_cols);
                    }
                }
                Err(ModelError::ShapeMismatch)
            },
        }
    }
}

} // verus!

use vstd::prelude::*;

verus! {

/// The value type that a metric's wire tag announces.
#[derive(Debug, Clone, Copy, PartialEq, Eq, Structural)]
pub enum MetricKind {
    Int,
    Float,
    Str,
    Bool,
}

/// One self-describing analysis value. The variant fixes the type of `value`;
/// an absent value (`None`) is distinct from a present zero or empty value.
/// A `Float` value is carried as its IEEE-754 single-precision bit pattern.
#[derive(Debug, Clone, PartialEq)]
pub enum Metric {
    Int { name: String, value: Option<i64>, description: Option<String>, unit: Option<String> },
    Float { name: String, value: Option<u32>, description: Option<String>, unit: Option<String> },
    String { name: String, value: Option<String>, description: Option<String>, unit: Option<String> },
    Bool { name: String, value: Option<bool>, description: Option<String>, unit: Option<String> },
}

/// The metrics that one analysis provider produced.
#[derive(Debug, Clone)]
pub struct MetricCollection {
    pub provider: String,
    pub metrics: Vec<Metric>,
    pub description: Option<String>,
}

/// Emotion dimensions, each an IEEE-754 single-precision bit pattern.
#[derive(Debug, Clone, Copy, PartialEq, Eq, Structural)]
pub struct EmotionMetrics {
    pub arousal: u32,
    pub dominance: u32,
    pub valence: u32,
}

/// The wire tag of each metric kind.
pub open spec fn tag_of_kind(k: MetricKind) -> Seq<char> {
    match k {
        MetricKind::Int => "int"@,
        MetricKind::Float => "float"@,
        MetricKind::Str => "str"@,
        MetricKind::Bool => "bool"@,
    }
}

pub open spec fn kind_of(m: Metric) -> MetricKind {
    match m {
        Metric::Int { .. } => MetricKind::Int,
        Metric::Float { .. } => MetricKind::Float,
        Metric::String { .. } => MetricKind::Str,
        Metric::Bool { .. } => MetricKind::Bool,
    }
}

/// Distinct kinds have distinct wire tags, so a tag names at most one kind.
pub proof fn lemma_tags_distinct(a: MetricKind, b: MetricKind)
    ensures
        tag_of_kind(a) == tag_of_kind(b) ==> a == b,
{
    reveal_strlit("int");
    reveal_strlit("float");
    reveal_strlit("str");
    reveal_strlit("bool");
    if tag_of_kind(a) == tag_of_kind(b) {
        assert(tag_of_kind(a).len() == tag_of_kind(b).len());
        assert(tag_of_kind(a)[0] == tag_of_kind(b)[0]);
    }
}

fn str_eq(a: &str, b: &str) -> (r: bool)
    ensures
        r == (a@ == b@),
{
    let a_len = a.unicode_len();
    if a_len != b.unicode_len() {
        return false;
    }
    let mut i: usize = 0;
    while i < a_len
        invariant
            a_len == a@.len(),
            a_len == b@.len(),
            i <= a_len,
            forall|j: int| 0 <= j < i ==> a@[j] == b@[j],
        decreases a_len - i,
    {
        if a.get_char(i) != b.get_char(i) {
            return false;
        }
        i = i + 1;
    }
    assert(a@ =~= b@);
    true
}

impl MetricKind {
    /// Reads a metric's wire tag; an unknown tag names no kind.
    pub fn from_tag(tag: &str) -> (r: Option<MetricKind>)
        ensures
            match r {
                Some(k) => tag_of_kind(k) == tag@,
                None => forall|k: MetricKind| tag_of_kind(k) != tag@,
            },
    {
        proof {
            reveal_strlit("int");
            reveal_strlit("float");
            reveal_strlit("str");
            reveal_strlit("bool");
        }
        if str_eq(tag, "int") {
            Some(MetricKind::Int)
        } else if str_eq(tag, "float") {
            Some(MetricKind::Float)
        } else if str_eq(tag, "str") {
            Some(MetricKind::Str)
        } else if str_eq(tag, "bool") {
            Some(MetricKind::Bool)
        } else {
            proof {
                assert forall|k: MetricKind| tag_of_kind(k) != tag@ by {
                    match k {
                        MetricKind::Int => {},
                        MetricKind::Float => {},
                        MetricKind::Str => {},
                        MetricKind::Bool => {},
                    }
                }
            }
            None
        }
    }

    /// The wire tag of this kind.
    pub fn tag(&self) -> (r: &'static str)
        ensures
            r@ == tag_of_kind(*self),
    {
        proof {
            reveal_strlit("int");
            reveal_strlit("float");
            reveal_strlit("str");
            reveal_strlit("bool");
        }
        match self {
            MetricKind::Int => "int",
            MetricKind::Float => "float",
            MetricKind::Str => "str",
            MetricKind::Bool => "bool",
        }
    }
}

impl Metric {
    /// The kind that the variant announces.
    pub fn kind(&self) -> (r: MetricKind)
        ensures
            r == kind_of(*self),
    {
        match self {
            Metric::Int { .. } => MetricKind::Int,
            Metric::Float { .. } => MetricKind::Float,
            Metric::String { .. } => MetricKind::Str,
            Metric::Bool { .. } => MetricKind::Bool,
        }
    }

    /// The metric's name, whatever its kind.
    pub fn name(&self) -> (r: &String)
        ensures
            r == (match *self {
                Metric::Int { name, .. } => name,
                Metric::Float { name, .. } => name,
                Metric::String { name, .. } => name,
                Metric::Bool { name, .. } => name,
            }),
    {
        match self {
            Metric::Int { name, .. } => name,
            Metric::Float { name, .. } => name,
            Metric::String { name, .. } => name,
            Metric::Bool { name, .. } => name,
        }
    }

    /// Whether a value is present.
    pub fn has_value(&self) -> (r: bool)
        ensures
            r == (match *self {
                Metric::Int { value, .. } => value.is_some(),
                Metric::Float { value, .. } => value.is_some(),
                Metric::String { value, .. } => value.is_some(),
                Metric::Bool { value, .. } => value.is_some(),
            }),
    {
        match self {
            Metric::Int { value, .. } => value.is_some(),
            Metric::Float { value, .. } => value.is_some(),
            Metric::String { value, .. } => value.is_some(),
            Metric::Bool { value, .. } => value.is_some(),
        }
    }
}

} // verus!

//! Yamaha 4-op style algorithms (TX81Z / DX21 family, 1–8).
use vstd::prelude::*;
use vstd::assert_sets_equal;

use crate::text::{
    chars_of, decimal, decimal_string, eq_chars, unsigned_decimal_string, is_plain_word, lemma_one_digit, lemma_plain_word,
    lower, lower_chars, nat_digits, parse_u8, parse_u8_chars, string_from, trim, trim_chars,
};

verus! {

/// Yamaha 4-op style algorithms (TX81Z / DX21 family, 1–8).
///
/// Operators are numbered OP1..OP4. OP1 is the primary carrier in stacked
/// algorithms. Feedback is applied to one operator (default OP4).
#[derive(Clone, Copy, Debug, PartialEq, Eq, Structural, Hash)]
pub enum Algorithm {
    /// 4 → 3 → 2 → 1  (full stack)
    Serial,
    /// (4 + 3) → 2 → 1
    ParallelMod,
    /// 4 → 3 → 1  and  2 → 1
    DoubleMod,
    /// 4 → 3 → 1  and  4 → 2 → 1
    SharedMod,
    /// 4 → 3   +   2 → 1   (two 2-op stacks)
    DualStack,
    /// 4 → 3, 4 → 2, 4 → 1
    TripleCarrier,
    /// 4 → 3   +   2   +   1
    StackPlusCarriers,
    /// 4 + 3 + 2 + 1  (additive, feedback on OP4)
    AllCarriers,
}

/// The algorithm numbered `id`, if any.
pub open spec fn algorithm_with_id(id: int) -> Option<Algorithm> {
    if id == 1 {
        Some(Algorithm::Serial)
    } else if id == 2 {
        Some(Algorithm::ParallelMod)
    } else if id == 3 {
        Some(Algorithm::DoubleMod)
    } else if id == 4 {
        Some(Algorithm::SharedMod)
    } else if id == 5 {
        Some(Algorithm::DualStack)
    } else if id == 6 {
        Some(Algorithm::TripleCarrier)
    } else if id == 7 {
        Some(Algorithm::StackPlusCarriers)
    } else if id == 8 {
        Some(Algorithm::AllCarriers)
    } else {
        None
    }
}

/// The algorithm whose name is `key`, if any.
pub open spec fn algorithm_named(key: Seq<char>) -> Option<Algorithm> {
    if key == "serial"@ {
        Some(Algorithm::Serial)
    } else if key == "parallel-mod"@ {
        Some(Algorithm::ParallelMod)
    } else if key == "double-mod"@ {
        Some(Algorithm::DoubleMod)
    } else if key == "shared-mod"@ {
        Some(Algorithm::SharedMod)
    } else if key == "dual-stack"@ {
        Some(Algorithm::DualStack)
    } else if key == "triple-carrier"@ {
        Some(Algorithm::TripleCarrier)
    } else if key == "stack-plus-carriers"@ {
        Some(Algorithm::StackPlusCarriers)
    } else if key == "all-carriers"@ {
        Some(Algorithm::AllCarriers)
    } else {
        None
    }
}

/// `s` with every `_` written as `-`.
pub open spec fn dashes(s: Seq<char>) -> Seq<char> {
    Seq::new(
        s.len(),
        |i: int|
            if s[i] == '_' {
                '-'
            } else {
                s[i]
            },
    )
}

/// `v` with every `_` written as `-`.
pub fn dashes_chars(v: &Vec<char>) -> (r: Vec<char>)
    ensures
        r@ == dashes(v@),
{
    let mut r: Vec<char> = Vec::new();
    let mut i: usize = 0;
    while i < v.len()
        invariant
            i <= v.len(),
            r@ == dashes(v@.subrange(0, i as int)),
        decreases v.len() - i,
    {
        r.push(
            if v[i] == '_' {
                '-'
            } else {
                v[i]
            },
        );
        i = i + 1;
        assert(r@ =~= dashes(v@.subrange(0, i as int)));
    }
    assert(v@.subrange(0, v.len() as int) == v@);
    r
}

/// What parsing `s` as an algorithm gives: its number `1`–`8` (after trimming),
/// or its name, ignoring ASCII case and writing `_` as `-`.
pub open spec fn parse_algorithm(s: Seq<char>) -> Result<Algorithm, Seq<char>> {
    let t = trim(s);
    match parse_u8(t) {
        Some(id) => match algorithm_with_id(id) {
            Some(a) => Ok(a),
            None => Err("algorithm id must be 1-8, got "@ + decimal(id)),
        },
        None => match algorithm_named(dashes(lower(t))) {
            Some(a) => Ok(a),
            None => Err("unknown algorithm `"@ + s + "`"@),
        },
    }
}

/// Whether an exec result with a `String` error matches a spec result.
pub open spec fn same_result<T>(r: Result<T, String>, s: Result<T, Seq<char>>) -> bool {
    match r {
        Ok(a) => s == Ok::<T, Seq<char>>(a),
        Err(m) => s == Err::<T, Seq<char>>(m@),
    }
}

impl Algorithm {
    pub const ALL: [Algorithm; 8] = [
        Algorithm::Serial,
        Algorithm::ParallelMod,
        Algorithm::DoubleMod,
        Algorithm::SharedMod,
        Algorithm::DualStack,
        Algorithm::TripleCarrier,
        Algorithm::StackPlusCarriers,
        Algorithm::AllCarriers,
    ];

    /// The number of the algorithm, 1–8.
    pub open spec fn spec_id(self) -> int {
        match self {
            Algorithm::Serial => 1,
            Algorithm::ParallelMod => 2,
            Algorithm::DoubleMod => 3,
            Algorithm::SharedMod => 4,
            Algorithm::DualStack => 5,
            Algorithm::TripleCarrier => 6,
            Algorithm::StackPlusCarriers => 7,
            Algorithm::AllCarriers => 8,
        }
    }

    pub open spec fn spec_name(self) -> Seq<char> {
        match self {
            Algorithm::Serial => "serial"@,
            Algorithm::ParallelMod => "parallel-mod"@,
            Algorithm::DoubleMod => "double-mod"@,
            Algorithm::SharedMod => "shared-mod"@,
            Algorithm::DualStack => "dual-stack"@,
            Algorithm::TripleCarrier => "triple-carrier"@,
            Algorithm::StackPlusCarriers => "stack-plus-carriers"@,
            Algorithm::AllCarriers => "all-carriers"@,
        }
    }

    pub open spec fn spec_description(self) -> Seq<char> {
        match self {
            Algorithm::Serial => "4→3→2→1 直列。倍音が厚く、ベースやリード向き"@,
            Algorithm::ParallelMod => "(4+3)→2→1。モジュレータ並列で複雑な倍音"@,
            Algorithm::DoubleMod => "4→3→1 と 2→1。キャリア1本に2系統の変調"@,
            Algorithm::SharedMod => "4が3と2を駆動し、両方とも1へ。金属打楽器向き"@,
            Algorithm::DualStack => "4→3 と 2→1。2オペ2組。レイヤーやデチューン向き"@,
            Algorithm::TripleCarrier => "4が3/2/1を同時に変調。ベル・ヒット向き"@,
            Algorithm::StackPlusCarriers => "4→3 に素の2と1を加算。芯のあるスタブ"@,
            Algorithm::AllCarriers => "加算合成 + OP4フィードバック。オーガン/ノイズ寄り"@,
        }
    }

    /// How many operators mix to the audio output.
    pub open spec fn spec_carrier_count(self) -> int {
        match self {
            Algorithm::Serial | Algorithm::ParallelMod | Algorithm::DoubleMod
            | Algorithm::SharedMod => 1,
            Algorithm::DualStack => 2,
            Algorithm::TripleCarrier | Algorithm::StackPlusCarriers => 3,
            Algorithm::AllCarriers => 4,
        }
    }

    /// Whether operator `from` modulates operator `to` (0 is OP1, 3 is OP4).
    pub open spec fn spec_modulates(self, from: int, to: int) -> bool {
        match self {
            Algorithm::Serial => (from == 3 && to == 2) || (from == 2 && to == 1) || (from == 1
                && to == 0),
            Algorithm::ParallelMod => (from == 3 && to == 1) || (from == 2 && to == 1) || (from
                == 1 && to == 0),
            Algorithm::DoubleMod => (from == 3 && to == 2) || (from == 2 && to == 0) || (from == 1
                && to == 0),
            Algorithm::SharedMod => (from == 3 && (to == 2 || to == 1)) || ((from == 2 || from
                == 1) && to == 0),
            Algorithm::DualStack => (from == 3 && to == 2) || (from == 1 && to == 0),
            Algorithm::TripleCarrier => from == 3 && 0 <= to <= 2,
            Algorithm::StackPlusCarriers => from == 3 && to == 2,
            Algorithm::AllCarriers => false,
        }
    }

    /// Whether operator `op` is heard: its output goes to the mix.
    pub open spec fn spec_is_carrier(self, op: int) -> bool {
        match self {
            Algorithm::Serial | Algorithm::ParallelMod | Algorithm::DoubleMod
            | Algorithm::SharedMod => op == 0,
            Algorithm::DualStack => op == 0 || op == 2,
            Algorithm::TripleCarrier | Algorithm::StackPlusCarriers => 0 <= op <= 2,
            Algorithm::AllCarriers => 0 <= op <= 3,
        }
    }

    /// Whether operator `from` feeds the phase of operator `to` (0 is OP1).
    pub fn modulates(self, from: usize, to: usize) -> (b: bool)
        ensures
            b == self.spec_modulates(from as int, to as int),
    {
        match self {
            Algorithm::Serial => (from == 3 && to == 2) || (from == 2 && to == 1) || (from == 1
                && to == 0),
            Algorithm::ParallelMod => (from == 3 && to == 1) || (from == 2 && to == 1) || (from
                == 1 && to == 0),
            Algorithm::DoubleMod => (from == 3 && to == 2) || (from == 2 && to == 0) || (from == 1
                && to == 0),
            Algorithm::SharedMod => (from == 3 && (to == 2 || to == 1)) || ((from == 2 || from
                == 1) && to == 0),
            Algorithm::DualStack => (from == 3 && to == 2) || (from == 1 && to == 0),
            Algorithm::TripleCarrier => from == 3 && to <= 2,
            Algorithm::StackPlusCarriers => from == 3 && to == 2,
            Algorithm::AllCarriers => false,
        }
    }

    /// Whether operator `op` (0 is OP1) is mixed to the output.
    pub fn is_carrier(self, op: usize) -> (b: bool)
        ensures
            b == self.spec_is_carrier(op as int),
    {
        match self {
            Algorithm::Serial | Algorithm::ParallelMod | Algorithm::DoubleMod
            | Algorithm::SharedMod => op == 0,
            Algorithm::DualStack => op == 0 || op == 2,
            Algorithm::TripleCarrier | Algorithm::StackPlusCarriers => op <= 2,
            Algorithm::AllCarriers => op <= 3,
        }
    }

    pub fn from_id(id: u8) -> (r: Option<Self>)
        ensures
            r == algorithm_with_id(id as int),
    {
        match id {
            1 => Some(Algorithm::Serial),
            2 => Some(Algorithm::ParallelMod),
            3 => Some(Algorithm::DoubleMod),
            4 => Some(Algorithm::SharedMod),
            5 => Some(Algorithm::DualStack),
            6 => Some(Algorithm::TripleCarrier),
            7 => Some(Algorithm::StackPlusCarriers),
            8 => Some(Algorithm::AllCarriers),
            _ => None,
        }
    }

    pub fn id(self) -> (r: u8)
        ensures
            r as int == self.spec_id(),
    {
        match self {
            Algorithm::Serial => 1,
            Algorithm::ParallelMod => 2,
            Algorithm::DoubleMod => 3,
            Algorithm::SharedMod => 4,
            Algorithm::DualStack => 5,
            Algorithm::TripleCarrier => 6,
            Algorithm::StackPlusCarriers => 7,
            Algorithm::AllCarriers => 8,
        }
    }

    pub fn name(self) -> (r: &'static str)
        ensures
            r@ == self.spec_name(),
    {
        match self {
            Algorithm::Serial => "serial",
            Algorithm::ParallelMod => "parallel-mod",
            Algorithm::DoubleMod => "double-mod",
            Algorithm::SharedMod => "shared-mod",
            Algorithm::DualStack => "dual-stack",
            Algorithm::TripleCarrier => "triple-carrier",
            Algorithm::StackPlusCarriers => "stack-plus-carriers",
            Algorithm::AllCarriers => "all-carriers",
        }
    }

    pub fn description(self) -> (r: &'static str)
        ensures
            r@ == self.spec_description(),
    {
        match self {
            Algorithm::Serial => "4→3→2→1 直列。倍音が厚く、ベースやリード向き",
            Algorithm::ParallelMod => "(4+3)→2→1。モジュレータ並列で複雑な倍音",
            Algorithm::DoubleMod => "4→3→1 と 2→1。キャリア1本に2系統の変調",
            Algorithm::SharedMod => "4が3と2を駆動し、両方とも1へ。金属打楽器向き",
            Algorithm::DualStack => "4→3 と 2→1。2オペ2組。レイヤーやデチューン向き",
            Algorithm::TripleCarrier => "4が3/2/1を同時に変調。ベル・ヒット向き",
            Algorithm::StackPlusCarriers => "4→3 に素の2と1を加算。芯のあるスタブ",
            Algorithm::AllCarriers => "加算合成 + OP4フィードバック。オーガン/ノイズ寄り",
        }
    }

    /// How many operators mix to the audio output (carriers).
    pub fn carrier_count(self) -> (r: usize)
        ensures
            r as int == self.spec_carrier_count(),
    {
        match self {
            Algorithm::Serial | Algorithm::ParallelMod | Algorithm::DoubleMod
            | Algorithm::SharedMod => 1,
            Algorithm::DualStack => 2,
            Algorithm::TripleCarrier | Algorithm::StackPlusCarriers => 3,
            Algorithm::AllCarriers => 4,
        }
    }

    /// `"<id> (<name>)"`, the text the algorithm is listed with.
    pub fn label(self) -> (s: String)
        ensures
            s@ == decimal(self.spec_id()) + " ("@ + self.spec_name() + ")"@,
    {
        let mut s = decimal_string(self.id() as i64);
        s.append(" (");
        s.append(self.name());
        s.append(")");
        s
    }

    /// Parses an algorithm number `1`–`8` or an algorithm name.
    pub fn parse(s: &str) -> (r: Result<Algorithm, String>)
        ensures
            same_result(r, parse_algorithm(s@)),
    {
        let raw = chars_of(s);
        let t = trim_chars(&raw);
        if let Some(id) = parse_u8_chars(&t) {
            return match Algorithm::from_id(id) {
                Some(a) => Ok(a),
                None => {
                    let mut m = string_from("algorithm id must be 1-8, got ");
                    m.append(decimal_string(id as i64).as_str());
                    Err(m)
                },
            };
        }
        let key = dashes_chars(&lower_chars(&t));
        let all = Algorithm::ALL;
        let mut k: usize = 0;
        while k < 8
            invariant
                k <= 8,
                all == Algorithm::ALL,
                key@ == dashes(lower(trim(s@))),
                parse_u8(trim(s@)) is None,
                forall|j: int| 0 <= j < k ==> key@ != (#[trigger] all@[j]).spec_name(),
            decreases 8 - k,
        {
            let a = all[k];
            if eq_chars(&key, a.name()) {
                proof {
                    lemma_name_round_trip(a);
                }
                return Ok(a);
            }
            k = k + 1;
        }
        let mut m = string_from("unknown algorithm `");
        m.append(s);
        m.append("`");
        Err(m)
    }
}

/// What an integer in a preset file gives as an algorithm.
pub open spec fn algorithm_from_number(v: int) -> Result<Algorithm, Seq<char>> {
    if v < 0 {
        Err("algorithm id must be 1-8"@)
    } else if v > 255 {
        Err("algorithm id "@ + decimal(v) + " out of range"@)
    } else {
        match algorithm_with_id(v) {
            Some(a) => Ok(a),
            None => Err("algorithm id must be 1-8, got "@ + decimal(v)),
        }
    }
}

impl Algorithm {
    /// An unsigned integer read from a preset file as an algorithm number.
    pub fn from_unsigned(v: u64) -> (r: Result<Algorithm, String>)
        ensures
            same_result(r, algorithm_from_number(v as int)),
    {
        if v > 255 {
            let mut m = string_from("algorithm id ");
            m.append(unsigned_decimal_string(v).as_str());
            m.append(" out of range");
            return Err(m);
        }
        match Algorithm::from_id(v as u8) {
            Some(a) => Ok(a),
            None => {
                let mut m = string_from("algorithm id must be 1-8, got ");
                m.append(unsigned_decimal_string(v).as_str());
                Err(m)
            },
        }
    }

    /// A signed integer read from a preset file as an algorithm number.
    pub fn from_signed(v: i64) -> (r: Result<Algorithm, String>)
        ensures
            same_result(r, algorithm_from_number(v as int)),
    {
        if v < 0 {
            return Err(string_from("algorithm id must be 1-8"));
        }
        Algorithm::from_unsigned(v as u64)
    }
}

impl std::str::FromStr for Algorithm {
    type Err = String;

    /// Parses an algorithm number `1`–`8` or an algorithm name, as `Algorithm::parse`.
    fn from_str(s: &str) -> (r: std::result::Result<Self, Self::Err>)
        ensures
            same_result(r, parse_algorithm(s@)),
    {
        Algorithm::parse(s)
    }
}

/// Numbering round-trips: `from_id(a.id()) == Some(a)`, every number that
/// names an algorithm is `1`–`8`, and a preset file's number reads back as
/// the algorithm it names.
pub proof fn lemma_id_round_trip(a: Algorithm, id: int)
    ensures
        algorithm_with_id(a.spec_id()) == Some(a),
        1 <= a.spec_id() <= 8,
        algorithm_with_id(id) is Some <==> 1 <= id <= 8,
        algorithm_with_id(id) matches Some(b) ==> b.spec_id() == id,
        algorithm_from_number(a.spec_id()) == Ok::<Algorithm, Seq<char>>(a),
{
}

/// Names round-trip: the name of an algorithm names that algorithm, so the
/// eight names are distinct.
pub proof fn lemma_name_round_trip(a: Algorithm)
    ensures
        algorithm_named(a.spec_name()) == Some(a),
{
    reveal_strlit("serial");
    reveal_strlit("parallel-mod");
    reveal_strlit("double-mod");
    reveal_strlit("shared-mod");
    reveal_strlit("dual-stack");
    reveal_strlit("triple-carrier");
    reveal_strlit("stack-plus-carriers");
    reveal_strlit("all-carriers");
    assert("serial"@.len() == 6 && "parallel-mod"@.len() == 12 && "double-mod"@.len() == 10
        && "shared-mod"@.len() == 10 && "dual-stack"@.len() == 10 && "triple-carrier"@.len() == 14
        && "stack-plus-carriers"@.len() == 19 && "all-carriers"@.len() == 12);
    match a {
        Algorithm::Serial => {},
        Algorithm::ParallelMod => {},
        Algorithm::DoubleMod => {},
        Algorithm::SharedMod => {
            assert("shared-mod"@[0] != "double-mod"@[0]);
        },
        Algorithm::DualStack => {
            assert("dual-stack"@[0] != "shared-mod"@[0]);
            assert("dual-stack"@[1] != "double-mod"@[1]);
        },
        Algorithm::TripleCarrier => {},
        Algorithm::StackPlusCarriers => {},
        Algorithm::AllCarriers => {
            assert("all-carriers"@[0] != "parallel-mod"@[0]);
        },
    }
}

/// Parsing takes back what naming and numbering give: an algorithm's name and
/// its number both parse to it.
pub proof fn lemma_parse_round_trip(a: Algorithm)
    ensures
        parse_algorithm(a.spec_name()) == Ok::<Algorithm, Seq<char>>(a),
        parse_algorithm(decimal(a.spec_id())) == Ok::<Algorithm, Seq<char>>(a),
{
    lemma_name_round_trip(a);
    let n = a.spec_name();
    match a {
        Algorithm::Serial => reveal_strlit("serial"),
        Algorithm::ParallelMod => reveal_strlit("parallel-mod"),
        Algorithm::DoubleMod => reveal_strlit("double-mod"),
        Algorithm::SharedMod => reveal_strlit("shared-mod"),
        Algorithm::DualStack => reveal_strlit("dual-stack"),
        Algorithm::TripleCarrier => reveal_strlit("triple-carrier"),
        Algorithm::StackPlusCarriers => reveal_strlit("stack-plus-carriers"),
        Algorithm::AllCarriers => reveal_strlit("all-carriers"),
    }
    assert(is_plain_word(n));
    lemma_plain_word(n);
    assert(dashes(n) =~= n);
    lemma_one_digit(a.spec_id() as nat);
}

/// Carriers counted one by one.
pub open spec fn carriers_in(a: Algorithm, n: int) -> int
    decreases n,
{
    if n <= 0 {
        0
    } else {
        carriers_in(a, n - 1) + if a.spec_is_carrier(n - 1) {
            1int
        } else {
            0int
        }
    }
}

/// The wiring of every algorithm: modulation only flows from a higher-numbered
/// operator to a lower one (so running OP4 first gives each operator fresh
/// modulators), each operator is either heard or modulates another (never
/// both), OP1 is always heard, and `carrier_count` counts the heard ones.
pub proof fn lemma_wiring(a: Algorithm)
    ensures
        forall|from: int, to: int| #[trigger] a.spec_modulates(from, to) ==> 0 <= to < from <= 3,
        forall|op: int|
            0 <= op <= 3 ==> (#[trigger] a.spec_is_carrier(op) <==> !exists|to: int|
                #[trigger] a.spec_modulates(op, to)),
        a.spec_is_carrier(0),
        carriers_in(a, 4) == a.spec_carrier_count(),
{
    reveal_with_fuel(carriers_in, 5);
    assert forall|op: int| 0 <= op <= 3 implies (#[trigger] a.spec_is_carrier(op) <==> !exists|
        to: int,
    | #[trigger] a.spec_modulates(op, to)) by {
        if !a.spec_is_carrier(op) {
            let to: int = match a {
                Algorithm::Serial | Algorithm::ParallelMod => if op == 3 && a
                    == Algorithm::ParallelMod {
                    1
                } else {
                    op - 1
                },
                Algorithm::DoubleMod => if op == 3 {
                    2
                } else {
                    0
                },
                Algorithm::SharedMod => if op == 3 {
                    2
                } else {
                    0
                },
                Algorithm::DualStack => if op == 3 {
                    2
                } else {
                    0
                },
                _ => 2,
            };
            assert(a.spec_modulates(op, to));
        }
    }
}

/// The pairs `(from, to)` such that operator `from` modulates operator `to`.
pub open spec fn modulation_pairs(a: Algorithm) -> Set<(int, int)> {
    Set::new(|p: (int, int)| a.spec_modulates(p.0, p.1))
}

/// Each algorithm is wired as its documented graph, edge by edge (operators
/// numbered from 0, so OP4 is 3): 1 is 4→3→2→1; 2 is (4+3)→2→1; 3 is
/// 4→3→1 and 2→1; 4 is 4→3→1 and 4→2→1; 5 is 4→3 and 2→1; 6 is 4→3, 4→2,
/// 4→1; 7 is 4→3 alone; 8 has no modulation at all.
pub proof fn lemma_documented_graphs()
    ensures
        modulation_pairs(Algorithm::Serial) == set![(3int, 2int), (2int, 1int), (1int, 0int)],
        modulation_pairs(Algorithm::ParallelMod) == set![(3int, 1int), (2int, 1int), (1int, 0int)],
        modulation_pairs(Algorithm::DoubleMod) == set![(3int, 2int), (2int, 0int), (1int, 0int)],
        modulation_pairs(Algorithm::SharedMod) == set![
            (3int, 2int),
            (3int, 1int),
            (2int, 0int),
            (1int, 0int),
        ],
        modulation_pairs(Algorithm::DualStack) == set![(3int, 2int), (1int, 0int)],
        modulation_pairs(Algorithm::TripleCarrier) == set![(3int, 2int), (3int, 1int), (3int, 0int)],
        modulation_pairs(Algorithm::StackPlusCarriers) == set![(3int, 2int)],
        modulation_pairs(Algorithm::AllCarriers) == Set::<(int, int)>::empty(),
{
    assert_sets_equal!(modulation_pairs(Algorithm::Serial), set![(3int, 2int), (2int, 1int), (1int, 0int)]);
    assert_sets_equal!(modulation_pairs(Algorithm::ParallelMod), set![(3int, 1int), (2int, 1int), (1int, 0int)]);
    assert_sets_equal!(modulation_pairs(Algorithm::DoubleMod), set![(3int, 2int), (2int, 0int), (1int, 0int)]);
    assert_sets_equal!(modulation_pairs(Algorithm::SharedMod), set![
        (3int, 2int),
        (3int, 1int),
        (2int, 0int),
        (1int, 0int),
    ]);
    assert_sets_equal!(modulation_pairs(Algorithm::DualStack), set![(3int, 2int), (1int, 0int)]);
    assert_sets_equal!(modulation_pairs(Algorithm::TripleCarrier), set![(3int, 2int), (3int, 1int), (3int, 0int)]);
    assert_sets_equal!(modulation_pairs(Algorithm::StackPlusCarriers), set![(3int, 2int)]);
    assert_sets_equal!(modulation_pairs(Algorithm::AllCarriers), Set::<(int, int)>::empty());
}

/// No two algorithms sound alike by wiring: distinct algorithms differ in at
/// least one modulation edge.
pub proof fn lemma_wirings_distinct(a: Algorithm, b: Algorithm)
    requires
        a != b,
    ensures
        exists|from: int, to: int| a.spec_modulates(from, to) != b.spec_modulates(from, to),
{
    let edges = seq![(3int, 2int), (3int, 1int), (3int, 0int), (2int, 1int), (2int, 0int), (1int, 0int)];
    assert(exists|k: int| 0 <= k < 6 && a.spec_modulates(edges[k].0, edges[k].1)
        != b.spec_modulates(edges[k].0, edges[k].1));
    let k = choose|k: int| 0 <= k < 6 && a.spec_modulates(edges[k].0, edges[k].1)
        != b.spec_modulates(edges[k].0, edges[k].1);
    assert(a.spec_modulates(edges[k].0, edges[k].1) != b.spec_modulates(edges[k].0, edges[k].1));
}

} // verus!

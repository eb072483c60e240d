//! ART DTrack support: the bracket groups of the ASCII `6d` records, the
//! coordinate-frame axes named by direction words, and the UTC midnight
//! that DTrack timestamps count from.

use vstd::prelude::*;
use crate::clock::{in_range, TimePoint, NANOS_PER_SEC};
use crate::text::{chars_of, chars_range, str_equals, string_of};
use crate::json::{JsonNumber, JsonValue};

verus! {

/// The groups that a left-to-right scan of `s[i..]` collects: a `[` at
/// depth 0 opens a group, each `]` closes one level, a `]` that brings the
/// depth back to 0 ends the group opened last at depth 0, and a `]` with no
/// group open is skipped.
pub open spec fn bracket_groups_from(s: Seq<char>, i: int, depth: int, start: int) -> Seq<
    Seq<char>,
>
    decreases s.len() - i,
{
    if i < 0 || i >= s.len() {
        seq![]
    } else if s[i] == '[' {
        bracket_groups_from(s, i + 1, depth + 1, if depth == 0 { i + 1 } else { start })
    } else if s[i] == ']' {
        if depth == 0 {
            bracket_groups_from(s, i + 1, depth, start)
        } else if depth - 1 == 0 {
            seq![s.subrange(start, i)] + bracket_groups_from(s, i + 1, depth - 1, start)
        } else {
            bracket_groups_from(s, i + 1, depth - 1, start)
        }
    } else {
        bracket_groups_from(s, i + 1, depth, start)
    }
}

/// The `[...]` groups of `s`, without their brackets.
pub open spec fn bracket_groups(s: Seq<char>) -> Seq<Seq<char>> {
    bracket_groups_from(s, 0, 0, 0)
}

proof fn lemma_groups_start_free(s: Seq<char>, i: int, st1: int, st2: int)
    requires
        0 <= i,
    ensures
        bracket_groups_from(s, i, 0, st1) == bracket_groups_from(s, i, 0, st2),
    decreases s.len() - i,
{
    if i < s.len() && s[i] != '[' {
        lemma_groups_start_free(s, i + 1, st1, st2);
    }
}

proof fn lemma_groups_skip(s: Seq<char>, k: int, m: int, d: int, st: int)
    requires
        0 <= k <= m <= s.len(),
        forall|j: int| k <= j < m ==> s[j] != '[' && (d != 0 ==> s[j] != ']'),
    ensures
        bracket_groups_from(s, k, d, st) == bracket_groups_from(s, m, d, st),
    decreases m - k,
{
    if k < m {
        lemma_groups_skip(s, k + 1, m, d, st);
    }
}

proof fn lemma_groups_shift(t: Seq<char>, s: Seq<char>, j: int, d: int, st: int)
    requires
        0 <= j <= s.len(),
        0 <= d,
        0 <= st,
        d > 0 ==> st <= j,
    ensures
        bracket_groups_from(t + s, t.len() + j, d, t.len() + st) == bracket_groups_from(s, j, d, st),
    decreases s.len() - j,
{
    let u = t + s;
    let n = t.len() as int;
    if j < s.len() {
        assert(u[n + j] == s[j]);
        if s[j] == '[' {
            if d == 0 {
                lemma_groups_shift(t, s, j + 1, d + 1, j + 1);
            } else {
                lemma_groups_shift(t, s, j + 1, d + 1, st);
            }
        } else if s[j] == ']' {
            if d == 0 {
                lemma_groups_shift(t, s, j + 1, d, st);
            } else {
                if d == 1 {
                    assert(u.subrange(n + st, n + j) =~= s.subrange(st, j));
                }
                lemma_groups_shift(t, s, j + 1, d - 1, st);
            }
        } else {
            lemma_groups_shift(t, s, j + 1, d, st);
        }
    }
}

/// Text before the first `[` holds no group: putting text without a `[`
/// (spaces, words, stray `]`) in front of a line leaves its groups as they
/// are.
pub proof fn law_groups_ignore_leading_text(t: Seq<char>, s: Seq<char>)
    requires
        !t.contains('['),
    ensures
        bracket_groups(t + s) == bracket_groups(s),
{
    let u = t + s;
    let n = t.len() as int;
    assert forall|j: int| 0 <= j < n implies u[j] != '[' by {
        assert(u[j] == t[j]);
    }
    lemma_groups_skip(u, 0, n, 0, 0);
    lemma_groups_start_free(u, n, 0, n);
    lemma_groups_shift(t, s, 0, 0, 0);
}

/// A line that starts with a group `[g]` (with no bracket inside) has `g`
/// as its first group, followed by the groups of the rest of the line.
pub proof fn law_groups_first_group(g: Seq<char>, s: Seq<char>)
    requires
        !g.contains('['),
        !g.contains(']'),
    ensures
        bracket_groups(seq!['['] + g + seq![']'] + s) == seq![g] + bracket_groups(s),
{
    let p = seq!['['] + g + seq![']'];
    let u = p + s;
    let m = g.len() as int;
    let n = p.len() as int;
    assert(u[0] == '[');
    assert forall|j: int| 1 <= j < 1 + m implies u[j] != '[' && u[j] != ']' by {
        assert(u[j] == g[j - 1]);
    }
    lemma_groups_skip(u, 1, 1 + m, 1, 1);
    assert(u[1 + m] == ']');
    assert(u.subrange(1, 1 + m) =~= g);
    lemma_groups_start_free(u, n, 1, n);
    lemma_groups_shift(p, s, 0, 0, 0);
}

/// Extract all `[...]` groups from the string. Does not handle nested brackets.
pub fn extract_bracket_groups(s: &str) -> (r: Vec<String>)
    requires
        s@.len() < i32::MAX,
    ensures
        r@.len() == bracket_groups(s@).len(),
        forall|k: int| 0 <= k < r@.len() ==> #[trigger] r@[k]@ == bracket_groups(s@)[k],
{
    let v = chars_of(s);
    let mut groups: Vec<String> = Vec::new();
    let ghost mut found: Seq<Seq<char>> = seq![];
    let mut depth: i32 = 0;
    let mut start: usize = 0;
    let mut i: usize = 0;
    while i < v.len()
        invariant
            i <= v@.len() < i32::MAX,
            v@ == s@,
            0 <= depth <= i,
            start <= i,
            groups@.len() == found.len(),
            forall|k: int| 0 <= k < found.len() ==> #[trigger] groups@[k]@ == found[k],
            bracket_groups(v@) == found + bracket_groups_from(v@, i as int, depth as int, start as int),
        decreases v.len() - i,
    {
        let c = v[i];
        let ghost old_depth = depth;
        if c == '[' {
            if depth == 0 {
                start = i + 1;
            }
            depth = depth + 1;
        } else if c == ']' && depth > 0 {
            depth = depth - 1;
            if depth == 0 {
                let piece = chars_range(&v, start, i);
                let text = string_of(&piece);
                groups.push(text);
                proof {
                    found = found.push(v@.subrange(start as int, i as int));
                    assert(found =~= found.drop_last().push(v@.subrange(start as int, i as int)));
                }
            }
        }
        proof {
            let f0 = if c == ']' && depth == 0 && old_depth > 0 { found.drop_last() } else { found };
            assert(bracket_groups(v@) == found + bracket_groups_from(
                v@,
                i + 1,
                depth as int,
                start as int,
            )) by {
                if c == ']' && depth == 0 && old_depth > 0 {
                    assert(f0 + (seq![v@.subrange(start as int, i as int)] + bracket_groups_from(
                        v@,
                        i + 1,
                        0,
                        start as int,
                    )) =~= found + bracket_groups_from(v@, i + 1, 0, start as int));
                }
            }
        }
        i = i + 1;
    }
    groups
}

/// The axis vector that a direction word names in the SteamVR frame
/// (X right, Y up, Z backward).
pub open spec fn direction_vector(dir: Seq<char>) -> Option<[i8; 3]> {
    if dir == "right"@ {
        Some([1i8, 0, 0])
    } else if dir == "left"@ {
        Some([-1i8, 0, 0])
    } else if dir == "up"@ {
        Some([0i8, 1, 0])
    } else if dir == "down"@ {
        Some([0i8, -1i8, 0])
    } else if dir == "backward"@ {
        Some([0i8, 0, 1])
    } else if dir == "forward"@ {
        Some([0i8, 0, -1i8])
    } else {
        None
    }
}

/// The cross product of two integer vectors.
pub open spec fn cross(a: [i8; 3], b: [i8; 3]) -> Seq<int> {
    seq![
        a@[1] * b@[2] - a@[2] * b@[1],
        a@[2] * b@[0] - a@[0] * b@[2],
        a@[0] * b@[1] - a@[1] * b@[0],
    ]
}

/// `a` points the other way from `b`.
pub open spec fn opposite(a: [i8; 3], b: [i8; 3]) -> bool {
    a@[0] == -b@[0] && a@[1] == -b@[1] && a@[2] == -b@[2]
}

/// The direction words name the axes of a right-handed frame: `right`,
/// `up` and `backward` are unit vectors along three different axes with
/// `right × up = backward`, and `left`, `down` and `forward` are their
/// opposites.
pub proof fn law_direction_words()
    ensures
        ({
            let r = direction_vector("right"@).unwrap();
            let u = direction_vector("up"@).unwrap();
            let b = direction_vector("backward"@).unwrap();
            &&& direction_vector("right"@) is Some && direction_vector("up"@) is Some
                && direction_vector("backward"@) is Some
            &&& direction_vector("left"@) is Some && opposite(direction_vector("left"@).unwrap(), r)
            &&& direction_vector("down"@) is Some && opposite(direction_vector("down"@).unwrap(), u)
            &&& direction_vector("forward"@) is Some && opposite(direction_vector("forward"@).unwrap(), b)
            &&& r@[0] * r@[0] + r@[1] * r@[1] + r@[2] * r@[2] == 1
            &&& u@[0] * u@[0] + u@[1] * u@[1] + u@[2] * u@[2] == 1
            &&& b@[0] * b@[0] + b@[1] * b@[1] + b@[2] * b@[2] == 1
            &&& r@[0] * u@[0] + r@[1] * u@[1] + r@[2] * u@[2] == 0
            &&& cross(r, u) == seq![b@[0] as int, b@[1] as int, b@[2] as int]
        }),
{
    reveal_strlit("right");
    reveal_strlit("left");
    reveal_strlit("up");
    reveal_strlit("down");
    reveal_strlit("backward");
    reveal_strlit("forward");
    assert("left"@[0] != "right"@[0]);
    assert("up"@[0] != "right"@[0] && "up"@[0] != "left"@[0]);
    assert("down"@[0] != "right"@[0] && "down"@[0] != "left"@[0] && "down"@[0] != "up"@[0]);
    assert("backward"@[0] != "right"@[0] && "backward"@[0] != "left"@[0] && "backward"@[0] != "up"@[0]
        && "backward"@[0] != "down"@[0]);
    assert("forward"@[0] != "right"@[0] && "forward"@[0] != "left"@[0] && "forward"@[0] != "up"@[0]
        && "forward"@[0] != "down"@[0] && "forward"@[0] != "backward"@[0]);
    let r = direction_vector("right"@).unwrap();
    let u = direction_vector("up"@).unwrap();
    let b = direction_vector("backward"@).unwrap();
    assert(cross(r, u) =~= seq![b@[0] as int, b@[1] as int, b@[2] as int]);
}

/// Map a direction string to its axis vector in the SteamVR internal frame
/// (X = right, Y = up, Z = backward).
pub fn vec_for_direction(dir: &str) -> (r: Option<[i8; 3]>)
    ensures
        r == direction_vector(dir@),
{
    if str_equals(dir, "right") {
        Some([1, 0, 0])
    } else if str_equals(dir, "left") {
        Some([-1, 0, 0])
    } else if str_equals(dir, "up") {
        Some([0, 1, 0])
    } else if str_equals(dir, "down") {
        Some([0, -1, 0])
    } else if str_equals(dir, "backward") {
        Some([0, 0, 1])
    } else if str_equals(dir, "forward") {
        Some([0, 0, -1])
    } else {
        None
    }
}

/// Entry `(i, j)` of `m` times `m` transposed.
pub open spec fn gram(m: [[i8; 3]; 3], i: int, j: int) -> int {
    m@[i]@[0] * m@[j]@[0] + m@[i]@[1] * m@[j]@[1] + m@[i]@[2] * m@[j]@[2]
}

/// `m` times its transpose is the identity.
pub open spec fn is_orthogonal(m: [[i8; 3]; 3]) -> bool {
    forall|i: int, j: int| 0 <= i < 3 && 0 <= j < 3 ==> gram(m, i, j) == if i == j { 1int } else { 0int }
}

/// The matrix whose columns are `vx`, `vy`, `vz`, row by row.
pub open spec fn from_columns(vx: [i8; 3], vy: [i8; 3], vz: [i8; 3]) -> [[i8; 3]; 3] {
    [[vx@[0], vy@[0], vz@[0]], [vx@[1], vy@[1], vz@[1]], [vx@[2], vy@[2], vz@[2]]]
}

/// Build a rotation matrix from three direction strings that describe
/// the X, Y, Z axes of a coordinate frame: its columns are the axis vectors
/// (rows are returned). Fails on an unknown word, naming the first one, and
/// when the axes do not form an orthogonal frame.
pub fn rotation_for_directions(directions: &[String; 3]) -> (r: Result<[[i8; 3]; 3], String>)
    ensures
        match r {
            Ok(m) => {
                &&& direction_vector(directions@[0]@) matches Some(vx)
                &&& direction_vector(directions@[1]@) matches Some(vy)
                &&& direction_vector(directions@[2]@) matches Some(vz)
                &&& m == from_columns(vx, vy, vz)
                &&& is_orthogonal(m)
            },
            Err(e) => {
                ||| direction_vector(directions@[0]@) is None && e@ == "Invalid direction: "@
                    + directions@[0]@
                ||| direction_vector(directions@[0]@) is Some && direction_vector(
                    directions@[1]@,
                ) is None && e@ == "Invalid direction: "@ + directions@[1]@
                ||| direction_vector(directions@[0]@) is Some && direction_vector(
                    directions@[1]@,
                ) is Some && direction_vector(directions@[2]@) is None && e@
                    == "Invalid direction: "@ + directions@[2]@
                ||| {
                    &&& direction_vector(directions@[0]@) matches Some(vx)
                    &&& direction_vector(directions@[1]@) matches Some(vy)
                    &&& direction_vector(directions@[2]@) matches Some(vz)
                    &&& !is_orthogonal(from_columns(vx, vy, vz))
                    &&& e@ == "Directions don't give orthogonal frame composed of 'right', 'left', 'up', 'down', 'forward', 'backward'"@
                }
            },
        },
{
    let vx = match vec_for_direction(directions[0].as_str()) {
        Some(v) => v,
        None => return Err(invalid_direction(&directions[0])),
    };
    let vy = match vec_for_direction(directions[1].as_str()) {
        Some(v) => v,
        None => return Err(invalid_direction(&directions[1])),
    };
    let vz = match vec_for_direction(directions[2].as_str()) {
        Some(v) => v,
        None => return Err(invalid_direction(&directions[2])),
    };
    let m: [[i8; 3]; 3] = [[vx[0], vy[0], vz[0]], [vx[1], vy[1], vz[1]], [vx[2], vy[2], vz[2]]];
    assert(m == from_columns(vx, vy, vz));
    let mut i: usize = 0;
    while i < 3
        invariant
            i <= 3,
            m == from_columns(vx, vy, vz),
            direction_vector(directions@[0]@) == Some(vx),
            direction_vector(directions@[1]@) == Some(vy),
            direction_vector(directions@[2]@) == Some(vz),
            forall|a: int, b: int|
                0 <= a < i && 0 <= b < 3 ==> gram(m, a, b) == if a == b { 1int } else { 0int },
        decreases 3 - i,
    {
        let mut j: usize = 0;
        while j < 3
            invariant
                i < 3,
                j <= 3,
                m == from_columns(vx, vy, vz),
                direction_vector(directions@[0]@) == Some(vx),
                direction_vector(directions@[1]@) == Some(vy),
                direction_vector(directions@[2]@) == Some(vz),
                forall|a: int, b: int|
                    0 <= a < i && 0 <= b < 3 ==> gram(m, a, b) == if a == b { 1int } else { 0int },
                forall|b: int| 0 <= b < j ==> gram(m, i as int, b) == if i == b { 1int } else { 0int },
            decreases 3 - j,
        {
            proof {
                lemma_i8_product(m[i as int][0], m[j as int][0]);
                lemma_i8_product(m[i as int][1], m[j as int][1]);
                lemma_i8_product(m[i as int][2], m[j as int][2]);
            }
            let g: i32 = (m[i][0] as i32) * (m[j][0] as i32) + (m[i][1] as i32) * (m[j][1] as i32)
                + (m[i][2] as i32) * (m[j][2] as i32);
            let want: i32 = if i == j {
                1
            } else {
                0
            };
            if g != want {
                assert(gram(m, i as int, j as int) == g);
                assert(!is_orthogonal(from_columns(vx, vy, vz)));
                return Err(not_orthogonal());
            }
            j = j + 1;
        }
        i = i + 1;
    }
    Ok(m)
}

proof fn lemma_i8_product(a: i8, b: i8)
    ensures
        -16384 <= a * b <= 16384,
{
    assert(-16384 <= a * b <= 16384) by (nonlinear_arith)
        requires
            -128 <= a <= 127,
            -128 <= b <= 127,
    ;
}

fn invalid_direction(d: &String) -> (r: String)
    ensures
        r@ == "Invalid direction: "@ + d@,
{
    let prefix = chars_of("Invalid direction: ");
    let name = chars_of(d.as_str());
    let mut all = prefix;
    let mut i: usize = 0;
    let ghost p = all@;
    while i < name.len()
        invariant
            i <= name.len(),
            all@ == p + name@.take(i as int),
        decreases name.len() - i,
    {
        all.push(name[i]);
        i = i + 1;
    }
    assert(name@.take(name.len() as int) =~= name@);
    string_of(&all)
}

fn not_orthogonal() -> (r: String)
    ensures
        r@ == "Directions don't give orthogonal frame composed of 'right', 'left', 'up', 'down', 'forward', 'backward'"@,
{
    let v = chars_of(
        "Directions don't give orthogonal frame composed of 'right', 'left', 'up', 'down', 'forward', 'backward'",
    );
    string_of(&v)
}

/// Nanoseconds in a day.
pub const NANOS_PER_DAY: i128 = 86_400_000_000_000;

/// The start of the UTC day that `now` falls in: the latest whole multiple
/// of a day at or before it.
pub open spec fn midnight_of(now: int) -> int {
    now - now % (NANOS_PER_DAY as int)
}

/// Compute UTC midnight for the given time point.
/// DTrack timestamps are seconds since UTC midnight, so we need midnight
/// to convert the timestamp to an absolute time.
pub fn compute_midnight_utc(now: TimePoint) -> (r: TimePoint)
    requires
        in_range(now),
    ensures
        r.nanos == midnight_of(now.nanos as int),
        (r.nanos as int) % (NANOS_PER_DAY as int) == 0,
        r.nanos <= now.nanos < r.nanos + NANOS_PER_DAY,
        now.nanos >= 0 ==> in_range(r),
{
    let n: i128 = now.nanos;
    proof {
        vstd::arithmetic::div_mod::lemma_fundamental_div_mod(n as int, NANOS_PER_DAY as int);
        vstd::arithmetic::div_mod::lemma_mod_bound(n as int, NANOS_PER_DAY as int);
        vstd::arithmetic::div_mod::lemma_mod_multiples_basic(n as int / (NANOS_PER_DAY as int), NANOS_PER_DAY as int);
    }
    if n >= 0 {
        let rem: i128 = n % NANOS_PER_DAY;
        TimePoint { nanos: n - rem }
    } else {
        let neg: u128 = (0 - n) as u128;
        let m: u128 = neg % (NANOS_PER_DAY as u128);
        proof {
            vstd::arithmetic::div_mod::lemma_fundamental_div_mod(neg as int, NANOS_PER_DAY as int);
            vstd::arithmetic::div_mod::lemma_mod_bound(neg as int, NANOS_PER_DAY as int);
            let q = neg as int / (NANOS_PER_DAY as int);
            assert(n as int == -(q * (NANOS_PER_DAY as int)) - m as int);
            if m == 0 {
                assert(n as int == (-q) * (NANOS_PER_DAY as int)) by (nonlinear_arith)
                    requires n as int == -(q * (NANOS_PER_DAY as int)) - m as int, m == 0;
                vstd::arithmetic::div_mod::lemma_mod_multiples_basic(-q, NANOS_PER_DAY as int);
            } else {
                assert(n as int == (-q - 1) * (NANOS_PER_DAY as int) + (NANOS_PER_DAY as int - m as int)) by (nonlinear_arith)
                    requires n as int == -(q * (NANOS_PER_DAY as int)) - m as int;
                vstd::arithmetic::div_mod::lemma_fundamental_div_mod_converse(
                    n as int, NANOS_PER_DAY as int, -q - 1, NANOS_PER_DAY as int - m as int);
            }
        }
        if m == 0 {
            now
        } else {
            TimePoint { nanos: n - (NANOS_PER_DAY - m as i128) }
        }
    }
}

} // verus!

verus! {

/// The text of `v` when it is a string, else `default`.
pub open spec fn text_or(v: JsonValue, default: Seq<char>) -> Seq<char> {
    match v {
        JsonValue::String(s) => s@,
        _ => default,
    }
}

/// The direction words that `key` of a configuration names for the X, Y and
/// Z axes: an array of exactly three entries gives them, each non-string
/// entry falling back to its default; otherwise the defaults `right`, `up`,
/// `backward`.
pub open spec fn directions_of(config: JsonValue, key: Seq<char>) -> Seq<Seq<char>> {
    match config.spec_get(key) {
        Some(JsonValue::Array(a)) if a@.len() == 3 => seq![
            text_or(a@[0], "right"@),
            text_or(a@[1], "up"@),
            text_or(a@[2], "backward"@),
        ],
        _ => seq!["right"@, "up"@, "backward"@],
    }
}

fn string_or(v: &JsonValue, default: &str) -> (r: String)
    ensures
        r@ == text_or(*v, default@),
{
    match v.as_str() {
        Some(t) => t.to_owned(),
        None => default.to_owned(),
    }
}

/// Reads the direction words of the X, Y and Z axes under `key`.
pub fn parse_directions(config: &JsonValue, key: &str) -> (r: [String; 3])
    ensures
        r@.map_values(|s: String| s@) == directions_of(*config, key@),
{
    let r = match config.get(key) {
        Some(v) => match v.as_array() {
            Some(a) => if a.len() == 3 {
                [string_or(&a[0], "right"), string_or(&a[1], "up"), string_or(&a[2], "backward")]
            } else {
                ["right".to_owned(), "up".to_owned(), "backward".to_owned()]
            },
            None => ["right".to_owned(), "up".to_owned(), "backward".to_owned()],
        },
        None => ["right".to_owned(), "up".to_owned(), "backward".to_owned()],
    };
    assert(r@.map_values(|s: String| s@) =~= directions_of(*config, key@));
    r
}

/// The body ids of a configuration's `bodyIDs`, counted from one there and
/// from zero here: each integer entry less one, cut to 32 bits; other
/// entries are skipped.
pub open spec fn body_ids_of(items: Seq<JsonValue>) -> Seq<i32>
    decreases items.len(),
{
    if items.len() == 0 {
        seq![]
    } else {
        let rest = body_ids_of(items.drop_last());
        match json_i64(items.last()) {
            Some(id) => rest.push((id - 1) as i32),
            None => rest,
        }
    }
}

/// The value of an integer that fits an `i64`, as `as_i64` reads it.
pub open spec fn json_i64(v: JsonValue) -> Option<i64> {
    match v {
        JsonValue::Number(JsonNumber::PosInt(n)) => if n <= i64::MAX as u64 {
            Some(n as i64)
        } else {
            None
        },
        JsonValue::Number(JsonNumber::NegInt(n)) => Some(n),
        _ => None,
    }
}

/// Reads the body ids of a configuration, counted from zero.
pub fn parse_body_ids(items: &Vec<JsonValue>) -> (r: Vec<i32>)
    ensures
        r@ == body_ids_of(items@),
{
    let mut r: Vec<i32> = Vec::new();
    let mut i: usize = 0;
    while i < items.len()
        invariant
            i <= items@.len(),
            r@ == body_ids_of(items@.take(i as int)),
        decreases items.len() - i,
    {
        assert(items@.take(i + 1).drop_last() =~= items@.take(i as int));
        match items[i].as_i64() {
            Some(id) => {
                let v: i32 = if id == i64::MIN {
                    assert(((id - 1) as i32) == -1i32) by (bit_vector)
                        requires
                            id == i64::MIN,
                    ;
                    -1
                } else {
                    #[verifier::truncate]
                    ((id - 1) as i32)
                };
                r.push(v);
            },
            None => {},
        }
        i = i + 1;
    }
    assert(items@.take(i as int) =~= items@);
    r
}

/// The settings of a DTrack source that are not coordinate transforms.
#[derive(Debug)]
pub struct DTrackSettings {
    pub body_ids: Vec<i32>,
    pub port: u16,
    pub multicast_group: String,
    pub timeout_ms: u64,
}

impl DTrackSettings {
    /// Reads the settings: the body ids (none by default), the UDP port
    /// (5000 by default, cut to 16 bits), the multicast group (none by
    /// default) and the receive timeout (100 ms by default).
    pub fn from_json(config: &JsonValue) -> (r: Self)
        ensures
            r.body_ids@ == match config.spec_get("bodyIDs"@) {
                Some(JsonValue::Array(items)) => body_ids_of(items@),
                _ => Seq::<i32>::empty(),
            },
            r.port == (match config.spec_u64_field("port"@) {
                Some(n) => n,
                None => 5000,
            }) as u16,
            r.multicast_group@ == match config.spec_str_field("multicastGroup"@) {
                Some(t) => t,
                None => seq![],
            },
            r.timeout_ms == match config.spec_u64_field("timeout"@) {
                Some(n) => n,
                None => 100,
            },
    {
        proof {
            reveal_strlit("");
            assert(""@ =~= Seq::<char>::empty());
        }
        let body_ids = match config.get("bodyIDs") {
            Some(v) => match v.as_array() {
                Some(items) => parse_body_ids(items),
                None => Vec::new(),
            },
            None => Vec::new(),
        };
        proof {
            if !(config.spec_get("bodyIDs"@) matches Some(JsonValue::Array(_))) {
                assert(body_ids@ =~= Seq::<i32>::empty());
            }
        }
        DTrackSettings {
            body_ids,
            port: config.value_u64("port", 5000) as u16,
            multicast_group: config.value_str("multicastGroup", ""),
            timeout_ms: config.value_u64("timeout", 100),
        }
    }
}

} // verus!

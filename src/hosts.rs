//! Flattening nodeset expressions (shorthand such as `node[00-05]`) into one
//! deduplicated list of host names.

use vstd::prelude::*;
use nodeset::{NodeSet, NodeSetParseError};

verus! {

#[verifier::external_type_specification]
#[verifier::external_body]
#[verifier::reject_recursive_types(T)]
pub struct ExNodeSet<T>(nodeset::NodeSet<T>);

#[verifier::external_type_specification]
#[verifier::external_body]
pub struct ExIdRangeList(nodeset::IdRangeList);

#[verifier::external_type_specification]
#[verifier::external_body]
pub struct ExNodeSetParseError(nodeset::NodeSetParseError);

/// The host names that a node set holds.
pub uninterp spec fn hosts_of(n: NodeSet) -> Set<Seq<char>>;

/// Relies on `NodeSet::new`: a set with no host.
#[verifier::external_body]
fn empty_nodeset() -> (r: NodeSet)
    ensures
        hosts_of(r) == Set::<Seq<char>>::empty(),
{
    NodeSet::new()
}

/// The hosts that an expression without groups denotes, or `None` when the
/// nodeset crate refuses it.
pub uninterp spec fn parsed_hosts(s: Seq<char>) -> Option<Set<Seq<char>>>;

/// Relies on `NodeSet`'s `FromStr`. Only a group (`@...`) reaches the crate's
/// global resolver; without one the result depends on the text alone. A range
/// step of zero makes the crate divide by zero, so such input is left out.
#[verifier::external_body]
fn parse_nodeset(s: &String) -> (r: Result<NodeSet, NodeSetParseError>)
    requires
        !has_zero_step(s@),
    ensures
        !s@.contains('@') ==> (r is Ok <==> parsed_hosts(s@) is Some),
        !s@.contains('@') ==> (r matches Ok(n) ==> parsed_hosts(s@) == Some(hosts_of(n))),
{
    s.parse()
}

/// Relies on `NodeSet::union`: the hosts found in either set.
#[verifier::external_body]
fn union_nodeset(a: &NodeSet, b: &NodeSet) -> (r: NodeSet)
    ensures
        hosts_of(r) == hosts_of(*a).union(hosts_of(*b)),
{
    a.union(b)
}

/// Relies on `NodeSet::iter`: it yields each host of the set.
#[verifier::external_body]
fn hostnames_of(n: &NodeSet) -> (r: Vec<String>)
    ensures
        names_of(r@) == hosts_of(*n),
{
    n.iter().collect()
}

/// The names that a list of strings holds.
pub open spec fn names_of(v: Seq<String>) -> Set<Seq<char>> {
    Set::new(|h: Seq<char>| exists|i: int| 0 <= i < v.len() && v[i]@ == h)
}

/// Every expression is free of groups and of zero steps: its parse then
/// depends on its text alone.
pub open spec fn plain_exprs(s: Seq<String>) -> bool {
    forall|i: int|
        0 <= i < s.len() ==> !(#[trigger] s[i])@.contains('@') && !has_zero_step(s[i]@)
}

/// Every expression parses.
pub open spec fn all_parse(s: Seq<String>) -> bool {
    forall|i: int| 0 <= i < s.len() ==> parsed_hosts((#[trigger] s[i])@) is Some
}

/// The hosts of all the expressions together, where each parses.
pub open spec fn parsed_union(s: Seq<String>) -> Set<Seq<char>>
    decreases s.len(),
{
    if s.len() == 0 {
        Set::empty()
    } else {
        parsed_union(s.drop_last()).union(parsed_hosts(s.last()@).unwrap())
    }
}

proof fn lemma_union_of_parsed(v: Seq<NodeSet>, s: Seq<String>)
    requires
        v.len() == s.len(),
        forall|i: int| 0 <= i < s.len() ==> parsed_hosts((#[trigger] s[i])@) == Some(hosts_of(v[i])),
    ensures
        hosts_union(v) == parsed_union(s),
    decreases s.len(),
{
    if s.len() > 0 {
        let (v0, s0) = (v.drop_last(), s.drop_last());
        assert forall|i: int| 0 <= i < s0.len() implies parsed_hosts((#[trigger] s0[i])@) == Some(hosts_of(v0[i])) by {
            assert(s0[i] == s[i] && v0[i] == v[i]);
        }
        lemma_union_of_parsed(v0, s0);
        assert(parsed_hosts(s[s.len() - 1]@) == Some(hosts_of(v[v.len() - 1])));
    }
}

/// The hosts of all the sets together.
pub open spec fn hosts_union(s: Seq<NodeSet>) -> Set<Seq<char>>
    decreases s.len(),
{
    if s.len() == 0 {
        Set::empty()
    } else {
        hosts_union(s.drop_last()).union(hosts_of(s.last()))
    }
}

/// One set that holds the hosts of all of `sets`.
pub fn union_all(sets: &Vec<NodeSet>) -> (r: NodeSet)
    ensures
        hosts_of(r) == hosts_union(sets@),
{
    let mut acc = empty_nodeset();
    let mut i: usize = 0;
    while i < sets.len()
        invariant
            i <= sets@.len(),
            hosts_of(acc) == hosts_union(sets@.take(i as int)),
        decreases sets@.len() - i,
    {
        acc = union_nodeset(&acc, &sets[i]);
        assert(sets@.take(i + 1).drop_last() == sets@.take(i as int));
        i = i + 1;
    }
    assert(sets@.take(sets@.len() as int) == sets@);
    acc
}

/// Why a list of nodeset expressions was not turned into hosts.
#[derive(Debug)]
pub enum HostsError {
    /// An expression holds a range with a step of zero.
    ZeroStep,
    /// The nodeset crate refused an expression.
    Parse(NodeSetParseError),
}

pub open spec fn is_digit(c: char) -> bool {
    '0' <= c <= '9'
}

pub open spec fn is_space(c: char) -> bool {
    c == ' ' || c == '\t' || c == '\n' || c == '\r'
}

/// The first index of the run of digits that ends just before `i`.
pub open spec fn digit_start(s: Seq<char>, i: int) -> int
    decreases i,
{
    if i <= 0 || i > s.len() || !is_digit(s[i - 1]) {
        i
    } else {
        digit_start(s, i - 1)
    }
}

/// The index just past the run of digits that starts at `j`.
pub open spec fn digit_end(s: Seq<char>, j: int) -> int
    decreases s.len() - j,
{
    if j < 0 || j >= s.len() || !is_digit(s[j]) {
        j
    } else {
        digit_end(s, j + 1)
    }
}

/// A character after which the parser may start reading a range: the start
/// of a term, of a bracketed list or of a list item; `:` only where a group
/// (`@`) may give it that role.
pub open spec fn opens_range(s: Seq<char>, c: char) -> bool {
    c == '[' || c == ',' || c == '&' || c == '!' || c == '^' || c == '(' || c == '@' || is_space(
        c,
    ) || (c == ':' && s.contains('@'))
}

/// A character before which the parser may end reading a range.
pub open spec fn closes_range(c: char) -> bool {
    c == ',' || c == ']' || c == '&' || c == '!' || c == '^' || c == '(' || c == ')' || is_space(c)
}

/// At `i` stands the `/` of a range `N-M/K` whose step `K` is all zeros, in a
/// place where the parser reads it as a range.
pub open spec fn zero_step_at(s: Seq<char>, i: int) -> bool {
    let p = digit_start(s, i);
    let q = digit_start(s, p - 1);
    let e = digit_end(s, i + 1);
    &&& 0 <= i < s.len()
    &&& s[i] == '/'
    &&& 1 <= p < i
    &&& s[p - 1] == '-'
    &&& q < p - 1
    &&& (q == 0 || opens_range(s, s[q - 1]))
    &&& i + 1 < e
    &&& (forall|k: int| i + 1 <= k < e ==> s[k] == '0')
    &&& (e == s.len() || closes_range(s[e]))
}

/// Somewhere in `s` stands a range with a step of zero.
pub open spec fn has_zero_step(s: Seq<char>) -> bool {
    exists|i: int| #[trigger] zero_step_at(s, i)
}

fn chars_of(s: &String) -> (r: Vec<char>)
    ensures
        r@ == s@,
{
    let t = s.as_str();
    let n = t.unicode_len();
    let mut out: Vec<char> = Vec::new();
    let mut i: usize = 0;
    while i < n
        invariant
            n == t@.len(),
            t@ == s@,
            i <= n,
            out@ == s@.take(i as int),
        decreases n - i,
    {
        out.push(t.get_char(i));
        i = i + 1;
        assert(out@ =~= s@.take(i as int));
    }
    assert(out@ =~= s@);
    out
}

fn digit(c: char) -> (r: bool)
    ensures
        r == is_digit(c),
{
    '0' <= c && c <= '9'
}

fn space(c: char) -> (r: bool)
    ensures
        r == is_space(c),
{
    c == ' ' || c == '\t' || c == '\n' || c == '\r'
}

fn digit_start_exec(v: &Vec<char>, i: usize) -> (r: usize)
    requires
        i <= v@.len(),
    ensures
        r as int == digit_start(v@, i as int),
{
    let mut k = i;
    while k > 0 && digit(v[k - 1])
        invariant
            k <= i <= v@.len(),
            digit_start(v@, k as int) == digit_start(v@, i as int),
        decreases k,
    {
        k = k - 1;
    }
    k
}

fn digit_end_exec(v: &Vec<char>, j: usize) -> (r: usize)
    requires
        j <= v@.len(),
    ensures
        r as int == digit_end(v@, j as int),
        j <= r <= v@.len(),
{
    let mut k = j;
    while k < v.len() && digit(v[k])
        invariant
            j <= k <= v@.len(),
            digit_end(v@, k as int) == digit_end(v@, j as int),
        decreases v@.len() - k,
    {
        k = k + 1;
    }
    k
}

fn zero_step_at_exec(v: &Vec<char>, has_at: bool, i: usize) -> (r: bool)
    requires
        i < v@.len(),
        has_at == v@.contains('@'),
    ensures
        r == zero_step_at(v@, i as int),
{
    let ghost s = v@;
    if v[i] != '/' || i >= v.len() - 1 {
        return false;
    }
    let p = digit_start_exec(v, i);
    if !(1 <= p && p < i && v[p - 1] == '-') {
        return false;
    }
    let q = digit_start_exec(v, p - 1);
    if !(q < p - 1) {
        return false;
    }
    if q > 0 {
        let c = v[q - 1];
        let opens = c == '[' || c == ',' || c == '&' || c == '!' || c == '^' || c == '(' || c
            == '@' || space(c) || (c == ':' && has_at);
        if !opens {
            return false;
        }
    }
    let e = digit_end_exec(v, i + 1);
    assert(digit_end(s, i as int + 1) == e as int);
    if !(i + 1 < e) {
        return false;
    }
    let mut k = i + 1;
    while k < e
        invariant
            s == v@,
            e as int == digit_end(s, i as int + 1),
            zero_step_at(s, i as int) == ((forall|m: int| i as int + 1 <= m < e ==> s[m] == '0') && (
            e == s.len() || closes_range(s[e as int]))),
            i + 1 <= k <= e <= v@.len(),
            forall|m: int| i + 1 <= m < k ==> s[m] == '0',
        decreases e - k,
    {
        if v[k] != '0' {
            assert(s[k as int] != '0' && i + 1 <= k < e);
            return false;
        }
        k = k + 1;
    }
    if e < v.len() {
        let c = v[e];
        c == ',' || c == ']' || c == '&' || c == '!' || c == '^' || c == '(' || c == ')' || space(c)
    } else {
        true
    }
}

/// Whether `s` holds a range with a step of zero.
pub fn zero_step(s: &String) -> (r: bool)
    ensures
        r == has_zero_step(s@),
{
    let v = chars_of(s);
    let mut has_at = false;
    let mut i: usize = 0;
    while i < v.len()
        invariant
            i <= v@.len(),
            has_at <==> exists|k: int| 0 <= k < i && v@[k] == '@',
        decreases v@.len() - i,
    {
        if v[i] == '@' {
            has_at = true;
        }
        i = i + 1;
    }
    assert(has_at == v@.contains('@'));
    let mut i: usize = 0;
    while i < v.len()
        invariant
            i <= v@.len(),
            v@ == s@,
            has_at == v@.contains('@'),
            forall|k: int| 0 <= k < i ==> !#[trigger] zero_step_at(s@, k),
        decreases v@.len() - i,
    {
        if zero_step_at_exec(&v, has_at, i) {
            return true;
        }
        i = i + 1;
    }
    false
}

/// Parses each expression in turn, stopping at the first that holds a zero
/// step or does not parse.
pub fn parse_all(nodesets: &[String]) -> (r: Result<Vec<NodeSet>, HostsError>)
    ensures
        r matches Ok(v) ==> v@.len() == nodesets@.len(),
        r is Ok ==> forall|i: int|
            0 <= i < nodesets@.len() ==> !has_zero_step(#[trigger] nodesets@[i]@),
        r matches Err(HostsError::ZeroStep) ==> exists|k: int|
            0 <= k < nodesets@.len() && has_zero_step(#[trigger] nodesets@[k]@),
        (forall|i: int| 0 <= i < nodesets@.len() ==> !has_zero_step(#[trigger] nodesets@[i]@))
            ==> !(r matches Err(HostsError::ZeroStep)),
        nodesets@.len() > 0 && has_zero_step(nodesets@[0]@) ==> r matches Err(
            HostsError::ZeroStep,
        ),
        nodesets@.len() == 0 ==> (r matches Ok(v) && v@.len() == 0),
        r matches Ok(v) ==> forall|i: int|
            0 <= i < nodesets@.len() && !nodesets@[i]@.contains('@') ==> parsed_hosts(
                (#[trigger] nodesets@[i])@,
            ) == Some(hosts_of(v@[i])),
        plain_exprs(nodesets@) ==> (r is Ok <==> all_parse(nodesets@)),
        plain_exprs(nodesets@) ==> !(r matches Err(HostsError::ZeroStep)),
{
    let mut out: Vec<NodeSet> = Vec::new();
    let mut i: usize = 0;
    while i < nodesets.len()
        invariant
            i <= nodesets@.len(),
            out@.len() == i,
            forall|k: int| 0 <= k < i ==> !has_zero_step(#[trigger] nodesets@[k]@),
            forall|k: int|
                0 <= k < i && !nodesets@[k]@.contains('@') ==> parsed_hosts(
                    (#[trigger] nodesets@[k])@,
                ) == Some(hosts_of(out@[k])),
        decreases nodesets@.len() - i,
    {
        if zero_step(&nodesets[i]) {
            return Err(HostsError::ZeroStep);
        }
        match parse_nodeset(&nodesets[i]) {
            Ok(n) => out.push(n),
            Err(e) => {
                assert(plain_exprs(nodesets@) ==> !all_parse(nodesets@)) by {
                    if plain_exprs(nodesets@) {
                        assert(!nodesets@[i as int]@.contains('@'));
                        assert(parsed_hosts(nodesets@[i as int]@) is None);
                    }
                }
                return Err(HostsError::Parse(e));
            },
        }
        i = i + 1;
    }
    proof {
        if plain_exprs(nodesets@) {
            assert forall|k: int| 0 <= k < nodesets@.len() implies parsed_hosts(
                (#[trigger] nodesets@[k])@,
            ) is Some by {
                assert(!nodesets@[k]@.contains('@'));
            }
        }
    }
    Ok(out)
}

/// Merges several nodeset expressions into one deduplicated set.
pub fn merge_nodesets(nodesets: &[String]) -> (r: Result<NodeSet, HostsError>)
    ensures
        r matches Ok(n) ==> exists|parsed: Seq<NodeSet>|
            parsed.len() == nodesets@.len() && hosts_of(n) == #[trigger] hosts_union(parsed),
        r is Ok ==> forall|i: int|
            0 <= i < nodesets@.len() ==> !has_zero_step(#[trigger] nodesets@[i]@),
        r matches Err(HostsError::ZeroStep) ==> exists|k: int|
            0 <= k < nodesets@.len() && has_zero_step(#[trigger] nodesets@[k]@),
        (forall|i: int| 0 <= i < nodesets@.len() ==> !has_zero_step(#[trigger] nodesets@[i]@))
            ==> !(r matches Err(HostsError::ZeroStep)),
        nodesets@.len() > 0 && has_zero_step(nodesets@[0]@) ==> r matches Err(
            HostsError::ZeroStep,
        ),
        nodesets@.len() == 0 ==> (r matches Ok(n) && hosts_of(n) == Set::<Seq<char>>::empty()),
        plain_exprs(nodesets@) ==> (r is Ok <==> all_parse(nodesets@)),
        plain_exprs(nodesets@) ==> (r matches Ok(n) ==> hosts_of(n) == parsed_union(nodesets@)),
        plain_exprs(nodesets@) ==> !(r matches Err(HostsError::ZeroStep)),
{
    let parsed = parse_all(nodesets)?;
    let n = union_all(&parsed);
    assert(parsed@.len() == nodesets@.len() && hosts_of(n) == hosts_union(parsed@));
    proof {
        if plain_exprs(nodesets@) {
            assert forall|i: int| 0 <= i < nodesets@.len() implies parsed_hosts(
                (#[trigger] nodesets@[i])@,
            ) == Some(hosts_of(parsed@[i])) by {
                assert(!nodesets@[i]@.contains('@'));
            }
            lemma_union_of_parsed(parsed@, nodesets@);
        }
    }
    Ok(n)
}

/// No name occurs twice in `v`.
pub open spec fn distinct_names(v: Seq<String>) -> bool {
    forall|i: int, j: int| 0 <= i < v.len() && 0 <= j < v.len() && i != j ==> v[i]@ != v[j]@
}

/// The names of `v`, each kept once, in the order of their first occurrence.
pub fn dedup_names(v: Vec<String>) -> (r: Vec<String>)
    ensures
        names_of(r@) == names_of(v@),
        distinct_names(r@),
        r@.len() <= v@.len(),
{
    let mut out: Vec<String> = Vec::new();
    let mut i: usize = 0;
    while i < v.len()
        invariant
            i <= v@.len(),
            out@.len() <= i,
            distinct_names(out@),
            forall|h: Seq<char>| names_of(out@).contains(h) <==> names_of(v@.take(i as int)).contains(h),
        decreases v@.len() - i,
    {
        let mut found = false;
        let mut k: usize = 0;
        while k < out.len()
            invariant
                i < v@.len(),
                k <= out@.len(),
                found <==> exists|j: int| 0 <= j < k && out@[j]@ == v@[i as int]@,
            decreases out@.len() - k,
        {
            if out[k] == v[i] {
                found = true;
            }
            k = k + 1;
        }
        let ghost before = out@;
        if !found {
            out.push(v[i].clone());
        }
        proof {
            let vi = v@.take(i + 1);
            assert forall|h: Seq<char>| names_of(out@).contains(h) <==> names_of(vi).contains(h) by {
                if names_of(vi).contains(h) {
                    let j = choose|j: int| 0 <= j < vi.len() && vi[j]@ == h;
                    if j < i {
                        assert(v@.take(i as int)[j]@ == h);
                        assert(names_of(before).contains(h));
                        let m = choose|m: int| 0 <= m < before.len() && before[m]@ == h;
                        assert(out@[m]@ == h);
                    } else if found {
                        let m = choose|m: int| 0 <= m < k && before[m]@ == v@[i as int]@;
                        assert(out@[m]@ == h);
                    } else {
                        assert(out@[out@.len() - 1]@ == h);
                    }
                }
                if names_of(out@).contains(h) {
                    let m = choose|m: int| 0 <= m < out@.len() && out@[m]@ == h;
                    if m < before.len() {
                        assert(names_of(before).contains(h));
                        let j = choose|j: int| 0 <= j < i && v@.take(i as int)[j]@ == h;
                        assert(vi[j]@ == h);
                    } else {
                        assert(vi[i as int]@ == h);
                    }
                }
            }
        }
        i = i + 1;
    }
    assert(v@.take(v@.len() as int) == v@);
    assert(names_of(out@) =~= names_of(v@));
    out
}

/// The host names of several nodeset expressions together, each once.
pub fn nodesets2hostnames(nodesets: &[String]) -> (r: Result<Vec<String>, HostsError>)
    ensures
        r matches Ok(v) ==> distinct_names(v@) && exists|parsed: Seq<NodeSet>|
            parsed.len() == nodesets@.len() && #[trigger] hosts_union(parsed) == names_of(v@),
        r is Ok ==> forall|i: int|
            0 <= i < nodesets@.len() ==> !has_zero_step(#[trigger] nodesets@[i]@),
        r matches Err(HostsError::ZeroStep) ==> exists|k: int|
            0 <= k < nodesets@.len() && has_zero_step(#[trigger] nodesets@[k]@),
        (forall|i: int| 0 <= i < nodesets@.len() ==> !has_zero_step(#[trigger] nodesets@[i]@))
            ==> !(r matches Err(HostsError::ZeroStep)),
        nodesets@.len() > 0 && has_zero_step(nodesets@[0]@) ==> r matches Err(
            HostsError::ZeroStep,
        ),
        nodesets@.len() == 0 ==> (r matches Ok(v) && v@.len() == 0),
        plain_exprs(nodesets@) ==> (r is Ok <==> all_parse(nodesets@)),
        plain_exprs(nodesets@) ==> (r matches Ok(v) ==> names_of(v@) == parsed_union(nodesets@)),
        plain_exprs(nodesets@) ==> !(r matches Err(HostsError::ZeroStep)),
{
    let n = merge_nodesets(nodesets)?;
    let v = dedup_names(hostnames_of(&n));
    proof {
        if v@.len() > 0 {
            assert(names_of(v@).contains(v@[0]@));
        }
    }
    Ok(v)
}

} // verus!

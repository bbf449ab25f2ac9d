use vstd::prelude::*;

verus! {

/// What `str::trim` leaves of `s`.
pub uninterp spec fn trimmed(s: Seq<char>) -> Seq<char>;

/// Relies on `str::trim`: the line without its leading and trailing white
/// space, which depends on the characters alone.
#[verifier::external_body]
fn trim_line(s: &str) -> (r: String)
    ensures
        r@ == trimmed(s@),
{
    s.trim().to_string()
}

/// A trimmed line names an address when it is not empty and is not a comment.
pub open spec fn is_address_line(t: Seq<char>) -> bool {
    t.len() > 0 && t[0] != '#'
}

/// The characters of each string.
pub open spec fn views(v: Seq<String>) -> Seq<Seq<char>> {
    v.map_values(|s: String| s@)
}

/// The addresses that a list of lines names: each line trimmed, blank lines and
/// comments (`#` first) left out, the rest in their order.
pub open spec fn selected(lines: Seq<Seq<char>>) -> Seq<Seq<char>> {
    lines.map_values(|l: Seq<char>| trimmed(l)).filter(|t: Seq<char>| is_address_line(t))
}

/// Whether an already trimmed line names an address.
pub fn is_address(trimmed_line: &str) -> (r: bool)
    ensures
        r == is_address_line(trimmed_line@),
{
    let n = trimmed_line.unicode_len();
    n > 0 && trimmed_line.get_char(0) != '#'
}

/// The addresses named by the lines of an address list.
pub fn select_addresses(lines: &Vec<String>) -> (r: Vec<String>)
    ensures
        views(r@) == selected(views(lines@)),
{
    let mut out: Vec<String> = Vec::new();
    let n = lines.len();
    let mut i: usize = 0;
    assert(views(lines@).subrange(0, 0).map_values(|l: Seq<char>| trimmed(l)) =~= Seq::<Seq<char>>::empty());
    assert(views(out@) =~= Seq::<Seq<char>>::empty());
    while i < n
        invariant
            n == lines@.len(),
            i <= n,
            views(out@) == selected(views(lines@).subrange(0, i as int)),
        decreases n - i,
    {
        let t = trim_line(lines[i].as_str());
        let ghost before = views(lines@).subrange(0, i as int).map_values(|l: Seq<char>| trimmed(l));
        let ghost after = views(lines@).subrange(0, i + 1).map_values(|l: Seq<char>| trimmed(l));
        assert(after.drop_last() =~= before);
        assert(after.last() == t@);
        let ghost prev = out@;
        proof {
            lemma_selected_step(views(lines@).subrange(0, i + 1));
            assert(views(lines@).subrange(0, i + 1).drop_last() =~= views(lines@).subrange(0, i as int));
        }
        if is_address(t.as_str()) {
            out.push(t);
            assert(views(out@) =~= views(prev).push(after.last()));
        }
        i = i + 1;
    }
    assert(views(lines@).subrange(0, n as int) =~= views(lines@));
    out
}

proof fn lemma_selected_step(lines: Seq<Seq<char>>)
    requires
        lines.len() > 0,
    ensures
        selected(lines) == if is_address_line(trimmed(lines.last())) {
            selected(lines.drop_last()).push(trimmed(lines.last()))
        } else {
            selected(lines.drop_last())
        },
{
    let mapped = lines.map_values(|l: Seq<char>| trimmed(l));
    assert(mapped.drop_last() =~= lines.drop_last().map_values(|l: Seq<char>| trimmed(l)));
    assert(mapped.last() == trimmed(lines.last()));
    reveal(Seq::filter);
}

/// No selected address is blank or a comment, every line that trims to an
/// address is selected, and the selection keeps the order of the lines.
pub proof fn lemma_selection_keeps_addresses_only(lines: Seq<Seq<char>>)
    ensures
        forall|k: int| 0 <= k < selected(lines).len() ==> is_address_line(#[trigger] selected(lines)[k]),
        forall|i: int| 0 <= i < lines.len() && is_address_line(trimmed(lines[i]))
            ==> selected(lines).contains(#[trigger] trimmed(lines[i])),
        forall|i: int| 0 <= i <= lines.len() ==> selected(lines) == #[trigger] selected(lines.subrange(0, i))
            + selected(lines.subrange(i, lines.len() as int)),
{
    let mapped = lines.map_values(|l: Seq<char>| trimmed(l));
    let pred = |t: Seq<char>| is_address_line(t);
    broadcast use vstd::seq_lib::group_filter_ensures;
    assert forall|i: int| 0 <= i < lines.len() && is_address_line(trimmed(lines[i]))
        implies selected(lines).contains(#[trigger] trimmed(lines[i])) by {
        assert(mapped[i] == trimmed(lines[i]));
        mapped.lemma_filter_contains(pred, i);
    }
    assert forall|i: int| 0 <= i <= lines.len() implies selected(lines) == #[trigger] selected(lines.subrange(0, i))
        + selected(lines.subrange(i, lines.len() as int)) by {
        let a = lines.subrange(0, i).map_values(|l: Seq<char>| trimmed(l));
        let b = lines.subrange(i, lines.len() as int).map_values(|l: Seq<char>| trimmed(l));
        assert(mapped =~= a + b);
        Seq::filter_distributes_over_add(a, b, pred);
    }
}

} // verus!

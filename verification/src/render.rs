//! JSON values written as PHP array literals.
use vstd::prelude::*;
use crate::json::{Json, JsonModel, models, entry_models, lemma_models, lemma_entry_models};
use crate::text::{
    quoted, indent, decimal, bool_text, push_quoted, push_indent, push_decimal, push_bool,
    append_str,
};

verus! {

broadcast use vstd::std_specs::vec::group_vec_axioms;

/// How deeply arrays and objects nest in `v` (0 for a scalar).
pub open spec fn nesting(v: JsonModel) -> nat
    decreases v, 0nat,
{
    match v {
        JsonModel::Object(m) => 1 + entries_nesting(m, m.len()),
        JsonModel::Array(a) => 1 + items_nesting(a, a.len()),
        _ => 0,
    }
}

pub open spec fn entries_nesting(m: Seq<(Seq<char>, JsonModel)>, n: nat) -> nat
    decreases m, n,
{
    if n == 0 || n > m.len() {
        0
    } else {
        let a = entries_nesting(m, (n - 1) as nat);
        let b = nesting(m[n - 1].1);
        if a < b {
            b
        } else {
            a
        }
    }
}

pub open spec fn items_nesting(s: Seq<JsonModel>, n: nat) -> nat
    decreases s, n,
{
    if n == 0 || n > s.len() {
        0
    } else {
        let a = items_nesting(s, (n - 1) as nat);
        let b = nesting(s[n - 1]);
        if a < b {
            b
        } else {
            a
        }
    }
}

pub proof fn lemma_entries_nesting(m: Seq<(Seq<char>, JsonModel)>, n: nat, i: int)
    requires
        0 <= i < n <= m.len(),
    ensures
        nesting(m[i].1) <= entries_nesting(m, n),
    decreases n,
{
    if i < n - 1 {
        lemma_entries_nesting(m, (n - 1) as nat, i);
    }
}

pub proof fn lemma_items_nesting(s: Seq<JsonModel>, n: nat, i: int)
    requires
        0 <= i < n <= s.len(),
    ensures
        nesting(s[i]) <= items_nesting(s, n),
    decreases n,
{
    if i < n - 1 {
        lemma_items_nesting(s, (n - 1) as nat, i);
    }
}

/// `v` as PHP source at indentation `depth`: strings single-quoted, other
/// scalars as their JSON text, an empty array or object as `[]`, and a
/// non-empty one as `[`, one line `key => value,` per member one level
/// deeper (object keys quoted, array positions as numbers), and `]` at
/// `depth`.
pub open spec fn render_model(v: JsonModel, depth: nat) -> Seq<char>
    decreases v, 0nat,
{
    match v {
        JsonModel::Object(m) => if m.len() == 0 {
            "[]"@
        } else {
            "[\n"@ + render_entries(m, m.len(), depth) + indent(depth) + "]"@
        },
        JsonModel::Array(a) => if a.len() == 0 {
            "[]"@
        } else {
            "[\n"@ + render_items(a, a.len(), depth) + indent(depth) + "]"@
        },
        JsonModel::Str(s) => quoted(s),
        JsonModel::Number(t) => t,
        JsonModel::Bool(b) => bool_text(b),
        JsonModel::Null => "null"@,
    }
}

/// The lines of the first `n` object members.
pub open spec fn render_entries(m: Seq<(Seq<char>, JsonModel)>, n: nat, depth: nat) -> Seq<char>
    decreases m, n,
{
    if n == 0 || n > m.len() {
        Seq::empty()
    } else {
        render_entries(m, (n - 1) as nat, depth) + indent(depth + 1) + quoted(m[n - 1].0)
            + " => "@ + render_model(m[n - 1].1, depth + 1) + ",\n"@
    }
}

/// The lines of the first `n` array items.
pub open spec fn render_items(s: Seq<JsonModel>, n: nat, depth: nat) -> Seq<char>
    decreases s, n,
{
    if n == 0 || n > s.len() {
        Seq::empty()
    } else {
        render_items(s, (n - 1) as nat, depth) + indent(depth + 1) + decimal((n - 1) as nat)
            + " => "@ + render_model(s[n - 1], depth + 1) + ",\n"@
    }
}

fn push_render(out: &mut String, v: &Json, depth: usize)
    requires
        depth + nesting(v@) < usize::MAX,
    ensures
        final(out)@ == old(out)@ + render_model(v@, depth as nat),
    decreases v,
{
    match v {
        Json::Null => append_str(out, "null"),
        Json::Bool(x) => push_bool(out, *x),
        Json::Number(t) => append_str(out, t.as_str()),
        Json::Str(x) => push_quoted(out, x.as_str()),
        Json::Array(a) => {
            let n = a.len();
            proof {
                lemma_models(a@, n as nat);
            }
            let ghost ms = models(a@, n as nat);
            if n == 0 {
                append_str(out, "[]");
            } else {
                let ghost start = out@;
                append_str(out, "[\n");
                let mut i: usize = 0;
                while i < n
                    invariant
                        i <= n == a@.len(),
                        *v == Json::Array(*a),
                        ms == models(a@, n as nat),
                        ms.len() == n,
                        forall|j: int| 0 <= j < n ==> #[trigger] ms[j] == a@[j]@,
                        depth + 1 + items_nesting(ms, n as nat) < usize::MAX,
                        out@ == start + "[\n"@ + render_items(ms, i as nat, depth as nat),
                    decreases n - i,
                {
                    proof {
                        assert(decreases_to!(*v => (*v)->Array_0));
                        assert(decreases_to!(*a => a@));
                        assert(decreases_to!(a@ => a@[i as int]));
                        lemma_items_nesting(ms, n as nat, i as int);
                    }
                    let ghost before = out@;
                    push_indent(out, depth + 1);
                    push_decimal(out, i as u64);
                    append_str(out, " => ");
                    push_render(out, &a[i], depth + 1);
                    append_str(out, ",\n");
                    i = i + 1;
                    assert(out@ =~= start + "[\n"@ + render_items(ms, i as nat, depth as nat));
                }
                push_indent(out, depth);
                append_str(out, "]");
                assert(out@ =~= start + render_model(v@, depth as nat));
            }
        },
        Json::Object(m) => {
            let n = m.len();
            proof {
                lemma_entry_models(m@, n as nat);
            }
            let ghost ms = entry_models(m@, n as nat);
            if n == 0 {
                append_str(out, "[]");
            } else {
                let ghost start = out@;
                append_str(out, "[\n");
                let mut i: usize = 0;
                while i < n
                    invariant
                        i <= n == m@.len(),
                        *v == Json::Object(*m),
                        ms == entry_models(m@, n as nat),
                        ms.len() == n,
                        forall|j: int| 0 <= j < n ==> #[trigger] ms[j] == (m@[j].0@, m@[j].1@),
                        depth + 1 + entries_nesting(ms, n as nat) < usize::MAX,
                        out@ == start + "[\n"@ + render_entries(ms, i as nat, depth as nat),
                    decreases n - i,
                {
                    proof {
                        assert(decreases_to!(*v => (*v)->Object_0));
                        assert(decreases_to!(*m => m@));
                        assert(decreases_to!(m@ => m@[i as int]));
                        assert(decreases_to!(m@[i as int] => m@[i as int].1));
                        lemma_entries_nesting(ms, n as nat, i as int);
                        assert(ms[i as int].1 == m@[i as int].1@);
                    }
                    push_indent(out, depth + 1);
                    push_quoted(out, m[i].0.as_str());
                    append_str(out, " => ");
                    push_render(out, &m[i].1, depth + 1);
                    append_str(out, ",\n");
                    i = i + 1;
                    assert(out@ =~= start + "[\n"@ + render_entries(ms, i as nat, depth as nat));
                }
                push_indent(out, depth);
                append_str(out, "]");
                assert(out@ =~= start + render_model(v@, depth as nat));
            }
        },
    }
}

/// `v` written as PHP source at indentation `depth`.
pub fn render(v: &Json, depth: usize) -> (r: String)
    requires
        depth + nesting(v@) < usize::MAX,
    ensures
        r@ == render_model(v@, depth as nat),
{
    let mut r = String::new();
    push_render(&mut r, v, depth);
    assert(r@ =~= render_model(v@, depth as nat));
    r
}


pub proof fn lemma_entries_nesting_bound(m: Seq<(Seq<char>, JsonModel)>, n: nat, bound: nat)
    requires
        n <= m.len(),
        forall|i: int| 0 <= i < m.len() ==> nesting(#[trigger] m[i].1) <= bound,
    ensures
        entries_nesting(m, n) <= bound,
    decreases n,
{
    if n > 0 {
        lemma_entries_nesting_bound(m, (n - 1) as nat, bound);
        assert(nesting(m[n - 1].1) <= bound);
    }
}

pub proof fn lemma_items_nesting_bound(s: Seq<JsonModel>, n: nat, bound: nat)
    requires
        n <= s.len(),
        forall|i: int| 0 <= i < s.len() ==> nesting(#[trigger] s[i]) <= bound,
    ensures
        items_nesting(s, n) <= bound,
    decreases n,
{
    if n > 0 {
        lemma_items_nesting_bound(s, (n - 1) as nat, bound);
        assert(nesting(s[n - 1]) <= bound);
    }
}

/// An object nests one level deeper than its deepest member.
pub proof fn lemma_object_nesting(m: Seq<(Seq<char>, JsonModel)>, bound: nat)
    requires
        forall|i: int| 0 <= i < m.len() ==> nesting(#[trigger] m[i].1) <= bound,
    ensures
        nesting(JsonModel::Object(m)) <= 1 + bound,
{
    lemma_entries_nesting_bound(m, m.len(), bound);
}

/// An array nests one level deeper than its deepest item.
pub proof fn lemma_array_nesting(s: Seq<JsonModel>, bound: nat)
    requires
        forall|i: int| 0 <= i < s.len() ==> nesting(#[trigger] s[i]) <= bound,
    ensures
        nesting(JsonModel::Array(s)) <= 1 + bound,
{
    lemma_items_nesting_bound(s, s.len(), bound);
}


/// Whether arrays and objects nest at most `limit` deep in `v`.
pub fn nesting_within(v: &Json, limit: u64) -> (r: bool)
    ensures
        r == (nesting(v@) <= limit),
    decreases v,
{
    match v {
        Json::Array(a) => {
            if limit == 0 {
                return false;
            }
            let n = a.len();
            proof {
                lemma_models(a@, n as nat);
            }
            let ghost ms = models(a@, n as nat);
            let mut i: usize = 0;
            while i < n
                invariant
                    i <= n == a@.len(),
                    *v == Json::Array(*a),
                    ms == models(a@, n as nat),
                    ms.len() == n,
                    limit > 0,
                    forall|j: int| 0 <= j < n ==> #[trigger] ms[j] == a@[j]@,
                    forall|j: int| 0 <= j < i ==> nesting(#[trigger] ms[j]) <= limit - 1,
                decreases n - i,
            {
                proof {
                    assert(decreases_to!(*v => (*v)->Array_0));
                    assert(decreases_to!(*a => a@));
                    assert(decreases_to!(a@ => a@[i as int]));
                }
                if !nesting_within(&a[i], limit - 1) {
                    proof {
                        lemma_items_nesting(ms, n as nat, i as int);
                    }
                    return false;
                }
                i = i + 1;
            }
            proof {
                lemma_items_nesting_bound(ms, n as nat, (limit - 1) as nat);
            }
            true
        },
        Json::Object(m) => {
            if limit == 0 {
                return false;
            }
            let n = m.len();
            proof {
                lemma_entry_models(m@, n as nat);
            }
            let ghost ms = entry_models(m@, n as nat);
            let mut i: usize = 0;
            while i < n
                invariant
                    i <= n == m@.len(),
                    *v == Json::Object(*m),
                    ms == entry_models(m@, n as nat),
                    ms.len() == n,
                    limit > 0,
                    forall|j: int| 0 <= j < n ==> #[trigger] ms[j] == (m@[j].0@, m@[j].1@),
                    forall|j: int| 0 <= j < i ==> nesting(#[trigger] ms[j].1) <= limit - 1,
                decreases n - i,
            {
                proof {
                    assert(decreases_to!(*v => (*v)->Object_0));
                    assert(decreases_to!(*m => m@));
                    assert(decreases_to!(m@ => m@[i as int]));
                    assert(decreases_to!(m@[i as int] => m@[i as int].1));
                    assert(ms[i as int].1 == m@[i as int].1@);
                }
                if !nesting_within(&m[i].1, limit - 1) {
                    proof {
                        lemma_entries_nesting(ms, n as nat, i as int);
                    }
                    return false;
                }
                i = i + 1;
            }
            proof {
                lemma_entries_nesting_bound(ms, n as nat, (limit - 1) as nat);
            }
            true
        },
        _ => true,
    }
}

} // verus!

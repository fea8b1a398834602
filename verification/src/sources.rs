//! Which entries of a template's `files` directory are file templates, and in
//! which order they are loaded: the `.toml` files, by name.
use vstd::prelude::*;

verus! {

/// The byte `.`.
pub open spec fn dot() -> u8 {
    46u8
}

/// The extension `toml`, as bytes.
pub open spec fn toml_extension() -> Seq<u8> {
    seq![116u8, 111u8, 109u8, 108u8]
}

/// `k` is the position of the last `.` in `name`.
pub open spec fn is_last_dot(name: Seq<u8>, k: int) -> bool {
    &&& 0 <= k < name.len()
    &&& name[k] == dot()
    &&& forall|j: int| k < j < name.len() ==> name[j] != dot()
}

/// The extension of the file name `name`, as `Path::extension` documents it:
/// none without a `.`, none when the only `.` begins the name, and otherwise
/// what follows the last `.`.
pub open spec fn file_extension(name: Seq<u8>) -> Option<Seq<u8>> {
    if exists|k: int| is_last_dot(name, k) {
        let k = choose|k: int| is_last_dot(name, k);
        if k == 0 {
            None
        } else {
            Some(name.skip(k + 1))
        }
    } else {
        None
    }
}

/// The entry `name` is a file template: its extension is `toml`.
pub open spec fn is_template_source(name: Seq<u8>) -> bool {
    file_extension(name) == Some(toml_extension())
}

/// `a` comes no later than `b` when both are compared byte by byte from `i` on.
pub open spec fn bytes_le_from(a: Seq<u8>, b: Seq<u8>, i: int) -> bool
    decreases a.len() - i,
{
    if i >= a.len() || i < 0 {
        true
    } else if i >= b.len() {
        false
    } else if a[i] != b[i] {
        a[i] < b[i]
    } else {
        bytes_le_from(a, b, i + 1)
    }
}

/// `a` comes no later than `b` in byte-wise lexicographic order, the order of
/// `OsStr` on Unix and so of paths in one directory.
pub open spec fn bytes_le(a: Seq<u8>, b: Seq<u8>) -> bool {
    bytes_le_from(a, b, 0)
}

/// Any two names are ordered one way or the other.
pub proof fn lemma_bytes_le_total(a: Seq<u8>, b: Seq<u8>, i: int)
    requires
        0 <= i,
    ensures
        bytes_le_from(a, b, i) || bytes_le_from(b, a, i),
    decreases a.len() - i,
{
    if i < a.len() && i < b.len() && a[i] == b[i] {
        lemma_bytes_le_total(a, b, i + 1);
    }
}

/// The order is transitive.
pub proof fn lemma_bytes_le_transitive(a: Seq<u8>, b: Seq<u8>, c: Seq<u8>, i: int)
    requires
        0 <= i,
        bytes_le_from(a, b, i),
        bytes_le_from(b, c, i),
    ensures
        bytes_le_from(a, c, i),
    decreases a.len() - i,
{
    if i < a.len() && i < b.len() && i < c.len() && a[i] == b[i] && b[i] == c[i] {
        lemma_bytes_le_transitive(a, b, c, i + 1);
    }
}

fn bytes_le_exec(a: &Vec<u8>, b: &Vec<u8>) -> (r: bool)
    ensures
        r == bytes_le(a@, b@),
{
    let mut i: usize = 0;
    while i < a.len() && i < b.len() && a[i] == b[i]
        invariant
            i <= a@.len(),
            i <= b@.len(),
            bytes_le(a@, b@) == bytes_le_from(a@, b@, i as int),
        decreases a@.len() - i,
    {
        i = i + 1;
    }
    if i >= a.len() {
        true
    } else if i >= b.len() {
        false
    } else {
        a[i] < b[i]
    }
}

fn template_source(name: &Vec<u8>) -> (r: bool)
    ensures
        r == is_template_source(name@),
{
    let n: usize = name.len();
    let mut j: usize = n;
    while j > 0 && name[j - 1] != 46u8
        invariant
            j <= n,
            n == name@.len(),
            forall|x: int| j <= x < n ==> name@[x] != dot(),
        decreases j,
    {
        j = j - 1;
    }
    if j == 0 {
        proof {
            if exists|k: int| is_last_dot(name@, k) {
                let k = choose|k: int| is_last_dot(name@, k);
                assert(name@[k] == dot());
            }
        }
        return false;
    }
    let k: usize = j - 1;
    proof {
        assert(is_last_dot(name@, k as int));
        let w = choose|w: int| is_last_dot(name@, w);
        assert(is_last_dot(name@, w));
        if w < k {
            assert(name@[k as int] == dot());
        } else if k < w {
            assert(name@[w] == dot());
        }
    }
    if k == 0 {
        return false;
    }
    let r = n - j == 4 && name[j] == 116u8 && name[j + 1] == 111u8 && name[j + 2] == 109u8
        && name[j + 3] == 108u8;
    proof {
        let ext = name@.skip(j as int);
        if r {
            assert(ext =~= toml_extension());
        } else if ext == toml_extension() {
            assert(ext.len() == 4);
            assert(ext[0] == name@[j as int]);
            assert(ext[1] == name@[j + 1]);
            assert(ext[2] == name@[j + 2]);
            assert(ext[3] == name@[j + 3]);
        }
    }
    r
}

/// The load order that `selected` gives the entries `names`: it holds each
/// entry that is a file template once, and no other, sorted by name.
pub open spec fn is_load_order(names: Seq<Seq<u8>>, selected: Seq<usize>) -> bool {
    &&& forall|i: int|
        0 <= i < selected.len() ==> (#[trigger] selected[i]) < names.len() && is_template_source(
            names[selected[i] as int],
        )
    &&& forall|i: int, j: int| 0 <= i < j < selected.len() ==> selected[i] != selected[j]
    &&& forall|k: int|
        0 <= k < names.len() && is_template_source(#[trigger] names[k]) ==> selected.contains(
            k as usize,
        )
    &&& forall|i: int, j: int|
        0 <= i < j < selected.len() ==> bytes_le(
            names[#[trigger] selected[i] as int],
            names[#[trigger] selected[j] as int],
        )
}

/// The views of the entry names.
pub open spec fn names_view(names: Seq<Vec<u8>>) -> Seq<Seq<u8>> {
    names.map_values(|n: Vec<u8>| n@)
}

/// Picks, among the entry names of a template's `files` directory, those of
/// file templates (extension `toml`) and gives their indices in the order
/// they are loaded: by name, byte by byte.
pub fn select_template_files(names: &Vec<Vec<u8>>) -> (order: Vec<usize>)
    ensures
        is_load_order(names_view(names@), order@),
{
    let ghost nv = names_view(names@);
    // The file templates, by index.
    let mut pending: Vec<usize> = Vec::new();
    let mut i: usize = 0;
    while i < names.len()
        invariant
            i <= names@.len(),
            nv == names_view(names@),
            forall|x: int|
                0 <= x < pending.len() ==> (#[trigger] pending@[x]) < i && is_template_source(
                    nv[pending@[x] as int],
                ),
            forall|x: int, y: int| 0 <= x < y < pending.len() ==> pending@[x] < pending@[y],
            forall|k: int|
                0 <= k < i && is_template_source(#[trigger] nv[k]) ==> pending@.contains(
                    k as usize,
                ),
        decreases names@.len() - i,
    {
        let ghost before = pending@;
        if template_source(&names[i]) {
            pending.push(i);
            proof {
                assert(pending@[pending@.len() - 1] == i);
                assert forall|k: int|
                    0 <= k < i + 1 && is_template_source(#[trigger] nv[k]) implies pending@.contains(
                    k as usize,
                ) by {
                    if k < i {
                        let x = choose|x: int| 0 <= x < before.len() && before[x] == k as usize;
                        assert(pending@[x] == before[x]);
                    }
                }
            }
        } else {
            assert(!is_template_source(nv[i as int]));
        }
        i = i + 1;
    }
    // Selection sort: move the least pending name to the end of the order.
    let mut order: Vec<usize> = Vec::new();
    while pending.len() > 0
        invariant
            nv == names_view(names@),
            nv.len() == names@.len(),
            forall|x: int|
                0 <= x < pending.len() ==> (#[trigger] pending@[x]) < nv.len()
                    && is_template_source(nv[pending@[x] as int]),
            forall|x: int|
                0 <= x < order.len() ==> (#[trigger] order@[x]) < nv.len() && is_template_source(
                    nv[order@[x] as int],
                ),
            forall|x: int, y: int|
                0 <= x < pending.len() && 0 <= y < pending.len() && x != y ==> pending@[x]
                    != pending@[y],
            forall|x: int, y: int| 0 <= x < y < order.len() ==> order@[x] != order@[y],
            forall|x: int, y: int|
                0 <= x < order.len() && 0 <= y < pending.len() ==> order@[x] != pending@[y],
            forall|k: int|
                0 <= k < nv.len() && is_template_source(#[trigger] nv[k]) ==> order@.contains(
                    k as usize,
                ) || pending@.contains(k as usize),
            forall|x: int, y: int|
                0 <= x < y < order.len() ==> bytes_le(
                    nv[#[trigger] order@[x] as int],
                    nv[#[trigger] order@[y] as int],
                ),
            forall|x: int, y: int|
                0 <= x < order.len() && 0 <= y < pending.len() ==> bytes_le(
                    nv[#[trigger] order@[x] as int],
                    nv[#[trigger] pending@[y] as int],
                ),
        decreases pending.len(),
    {
        let mut m: usize = 0;
        let mut c: usize = 1;
        proof {
            lemma_bytes_le_total(nv[pending@[0] as int], nv[pending@[0] as int], 0);
        }
        while c < pending.len()
            invariant
                nv == names_view(names@),
                nv.len() == names@.len(),
                m < pending.len(),
                1 <= c <= pending.len(),
                m < c,
                forall|x: int| 0 <= x < pending.len() ==> (#[trigger] pending@[x]) < nv.len(),
                forall|y: int|
                    0 <= y < c ==> bytes_le(
                        nv[pending@[m as int] as int],
                        nv[#[trigger] pending@[y] as int],
                    ),
            decreases pending.len() - c,
        {
            let pc: usize = pending[c];
            let pm: usize = pending[m];
            assert(nv[pc as int] == names@[pc as int]@);
            assert(nv[pm as int] == names@[pm as int]@);
            if bytes_le_exec(&names[pc], &names[pm]) && !bytes_le_exec(&names[pm], &names[pc]) {
                proof {
                    assert forall|y: int| 0 <= y < c + 1 implies bytes_le(
                        nv[pc as int],
                        nv[#[trigger] pending@[y] as int],
                    ) by {
                        if y < c {
                            lemma_bytes_le_transitive(
                                nv[pc as int],
                                nv[pm as int],
                                nv[pending@[y] as int],
                                0,
                            );
                        } else {
                            lemma_bytes_le_total(nv[pc as int], nv[pc as int], 0);
                        }
                    }
                }
                m = c;
            } else {
                proof {
                    if !bytes_le(nv[pm as int], nv[pc as int]) {
                        lemma_bytes_le_total(nv[pm as int], nv[pc as int], 0);
                    }
                }
            }
            c = c + 1;
        }
        let ghost old_pending = pending@;
        let ghost old_order = order@;
        let picked: usize = pending.remove(m);
        order.push(picked);
        proof {
            assert(picked == old_pending[m as int]);
            assert(pending@ == old_pending.remove(m as int));
            assert forall|y: int| 0 <= y < pending.len() implies (old_pending.remove(m as int)[y]
                == #[trigger] pending@[y]) && (y < m ==> pending@[y] == old_pending[y]) && (y
                >= m ==> pending@[y] == old_pending[y + 1]) by {}
            assert forall|x: int| 0 <= x < order.len() implies (#[trigger] order@[x]) < nv.len()
                && is_template_source(nv[order@[x] as int]) by {
                if x < old_order.len() {
                    assert(order@[x] == old_order[x]);
                }
            }
            assert forall|x: int, y: int| 0 <= x < y < order.len() implies order@[x]
                != order@[y] by {
                if y < old_order.len() {
                    assert(order@[x] == old_order[x] && order@[y] == old_order[y]);
                } else {
                    assert(order@[x] == old_order[x]);
                    assert(order@[y] == old_pending[m as int]);
                }
            }
            assert forall|x: int, y: int|
                0 <= x < order.len() && 0 <= y < pending.len() implies order@[x]
                != pending@[y] by {
                let oy = if y < m { y } else { y + 1 };
                assert(pending@[y] == old_pending[oy]);
                if x < old_order.len() {
                    assert(order@[x] == old_order[x]);
                } else {
                    assert(order@[x] == old_pending[m as int]);
                }
            }
            assert forall|x: int, y: int|
                0 <= x < pending.len() && 0 <= y < pending.len() && x != y implies pending@[x]
                != pending@[y] by {
                let ox = if x < m { x } else { x + 1 };
                let oy = if y < m { y } else { y + 1 };
                assert(pending@[x] == old_pending[ox]);
                assert(pending@[y] == old_pending[oy]);
            }
            assert forall|k: int|
                0 <= k < nv.len() && is_template_source(#[trigger] nv[k]) implies order@.contains(
                k as usize,
            ) || pending@.contains(k as usize) by {
                if old_order.contains(k as usize) {
                    let x = choose|x: int| 0 <= x < old_order.len() && old_order[x] == k as usize;
                    assert(order@[x] == old_order[x]);
                } else {
                    let x = choose|x: int|
                        0 <= x < old_pending.len() && old_pending[x] == k as usize;
                    if x == m {
                        assert(order@[old_order.len() as int] == k as usize);
                    } else if x < m {
                        assert(pending@[x] == old_pending[x]);
                    } else {
                        assert(pending@[x - 1] == old_pending[x]);
                    }
                }
            }
            assert forall|x: int, y: int| 0 <= x < y < order.len() implies bytes_le(
                nv[#[trigger] order@[x] as int],
                nv[#[trigger] order@[y] as int],
            ) by {
                assert(order@[x] == old_order[x]);
                if y < old_order.len() {
                    assert(order@[y] == old_order[y]);
                } else {
                    assert(order@[y] == old_pending[m as int]);
                }
            }
            assert forall|x: int, y: int|
                0 <= x < order.len() && 0 <= y < pending.len() implies bytes_le(
                nv[#[trigger] order@[x] as int],
                nv[#[trigger] pending@[y] as int],
            ) by {
                let oy = if y < m { y } else { y + 1 };
                assert(pending@[y] == old_pending[oy]);
                if x < old_order.len() {
                    assert(order@[x] == old_order[x]);
                } else {
                    assert(order@[x] == old_pending[m as int]);
                }
            }
        }
    }
    order
}

/// Two names each no later than the other are the same name.
pub proof fn lemma_bytes_le_antisymmetric(a: Seq<u8>, b: Seq<u8>, i: int)
    requires
        0 <= i <= a.len(),
        i <= b.len(),
        forall|j: int| 0 <= j < i ==> a[j] == b[j],
        bytes_le_from(a, b, i),
        bytes_le_from(b, a, i),
    ensures
        a == b,
    decreases a.len() - i,
{
    if i < a.len() && i < b.len() {
        lemma_bytes_le_antisymmetric(a, b, i + 1);
    } else {
        assert(a =~= b);
    }
}

proof fn lemma_orders_agree_at(names: Seq<Seq<u8>>, a: Seq<usize>, b: Seq<usize>, k: int)
    requires
        forall|i: int, j: int| 0 <= i < j < names.len() ==> names[i] != names[j],
        is_load_order(names, a),
        is_load_order(names, b),
        0 <= k < a.len(),
        k < b.len(),
        forall|j: int| 0 <= j < k ==> a[j] == b[j],
    ensures
        a[k] == b[k],
{
    if a[k] != b[k] {
        assert(b.contains(a[k]));
        let p = choose|p: int| 0 <= p < b.len() && b[p] == a[k];
        assert(a.contains(b[k]));
        let q = choose|q: int| 0 <= q < a.len() && a[q] == b[k];
        if p < k {
            assert(a[p] == b[p]);
        }
        if q < k {
            assert(a[q] == b[q]);
        }
        assert(k < p && k < q);
        let x = names[a[k] as int];
        let y = names[b[k] as int];
        assert(bytes_le(y, names[b[p] as int]));
        assert(bytes_le(x, names[a[q] as int]));
        lemma_bytes_le_antisymmetric(x, y, 0);
        if a[k] < b[k] {
            assert(names[a[k] as int] != names[b[k] as int]);
        } else {
            assert(names[b[k] as int] != names[a[k] as int]);
        }
    }
}

proof fn lemma_orders_agree_below(names: Seq<Seq<u8>>, a: Seq<usize>, b: Seq<usize>, k: int)
    requires
        forall|i: int, j: int| 0 <= i < j < names.len() ==> names[i] != names[j],
        is_load_order(names, a),
        is_load_order(names, b),
        0 <= k <= a.len(),
        k <= b.len(),
    ensures
        forall|j: int| 0 <= j < k ==> a[j] == b[j],
    decreases k,
{
    if k > 0 {
        lemma_orders_agree_below(names, a, b, k - 1);
        lemma_orders_agree_at(names, a, b, k - 1);
    }
}

/// The load order is determined by the names alone: among entries with
/// distinct names, two orders that both hold every file template once, and
/// nothing else, sorted by name, are the same order.
pub proof fn law_load_order_is_unique(names: Seq<Seq<u8>>, a: Seq<usize>, b: Seq<usize>)
    requires
        forall|i: int, j: int| 0 <= i < j < names.len() ==> names[i] != names[j],
        is_load_order(names, a),
        is_load_order(names, b),
    ensures
        a == b,
{
    let m = if a.len() <= b.len() { a.len() as int } else { b.len() as int };
    lemma_orders_agree_below(names, a, b, m);
    if a.len() < b.len() {
        let x = b[m];
        assert(a.contains(x));
        let q = choose|q: int| 0 <= q < a.len() && a[q] == x;
        assert(b[q] == a[q]);
    } else if b.len() < a.len() {
        let x = a[m];
        assert(b.contains(x));
        let q = choose|q: int| 0 <= q < b.len() && b[q] == x;
        assert(a[q] == b[q]);
    }
    assert(a =~= b);
}

/// An entry is a file template exactly when its name is `.toml` preceded by
/// at least one more byte: `a.toml` is one, `.toml` and `a.toml.bak` are not.
pub proof fn law_template_sources_end_in_toml(name: Seq<u8>)
    ensures
        is_template_source(name) <==> (name.len() > 5 && name.skip(name.len() - 5) == seq![
            46u8,
            116u8,
            111u8,
            109u8,
            108u8,
        ]),
{
    let n = name.len() as int;
    let suffix = seq![46u8, 116u8, 111u8, 109u8, 108u8];
    if n > 5 && name.skip(n - 5) == suffix {
        assert(name[n - 5] == name.skip(n - 5)[0]);
        assert forall|j: int| n - 5 < j < n implies name[j] != dot() by {
            assert(name[j] == name.skip(n - 5)[j - (n - 5)]);
        }
        assert(is_last_dot(name, n - 5));
        let w = choose|w: int| is_last_dot(name, w);
        assert(is_last_dot(name, w));
        if w < n - 5 {
            assert(name[n - 5] == dot());
        } else if w > n - 5 {
            assert(name[w] == dot());
        }
        assert(name.skip(n - 4) =~= toml_extension());
    }
    if is_template_source(name) {
        let w = choose|w: int| is_last_dot(name, w);
        assert(w != 0);
        let ext = name.skip(w + 1);
        assert(ext == toml_extension());
        assert(ext.len() == 4);
        assert(w == n - 5);
        assert forall|j: int| 0 <= j < 5 implies name.skip(n - 5)[j] == suffix[j] by {
            if j > 0 {
                assert(name.skip(n - 5)[j] == ext[j - 1]);
            }
        }
        assert(name.skip(n - 5) =~= suffix);
    }
}

} // verus!

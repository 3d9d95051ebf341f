//! What holds of the Rust backend for every value and every test.

use vstd::prelude::*;
use crate::abis::rust_text::rust_route_path;
use crate::abis::rust_text::rust_step;
use crate::abis::rust_text::Decl;
use crate::abis::rust_unit::collides;
use crate::abis::rust_unit::consistent;
use crate::abis::rust_unit::decls_upto;
use crate::abis::rust_unit::earlier_decl;
use crate::abis::rust_unit::first_collision;
use crate::abis::rust_unit::first_undeclarable;
use crate::abis::rust_unit::is_first_collision;
use crate::abis::rust_unit::is_first_undeclarable;
use crate::abis::rust_unit::rust_callee;
use crate::abis::rust_unit::rust_caller;
use crate::abis::rust_unit::rust_prefix;
use crate::error::BuildErrorModel;
use crate::schema::CallingConvention;
use crate::schema::TestModel;
use crate::value::lemma_route_leads_to_leaf;
use crate::value::lemma_same_shape_leaves;
use crate::value::lemma_zeroed_same_shape;
use crate::value::Step;
use crate::value::ValModel;

verus! {

/// Two values of the same shape have the same Rust type, or both have none.
pub proof fn lemma_same_shape_type(a: ValModel, b: ValModel)
    requires
        a.same_shape(b),
    ensures
        a.rust_typed() == b.rust_typed(),
        a.rust_type() == b.rust_type(),
    decreases a,
{
    match a {
        ValModel::Ref(inner) => lemma_same_shape_type(*inner, *b->Ref_0),
        ValModel::Array(items) => {
            if items.len() > 0 {
                assert(items[0].same_shape(b->Array_0[0]));
                lemma_same_shape_type(items[0], b->Array_0[0]);
            }
        },
        _ => {},
    }
}

/// Two values of the same shape, stored at the same place, have the same leaf
/// paths in the same order.
pub proof fn lemma_same_shape_paths(a: ValModel, b: ValModel, from: Seq<char>, is_var_root: bool)
    requires
        a.same_shape(b),
    ensures
        a.rust_paths(from, is_var_root) == b.rust_paths(from, is_var_root),
    decreases a, 0nat,
{
    match a {
        ValModel::Struct(_, fields) => lemma_same_shape_field_paths(
            fields,
            b->Struct_1,
            fields.len(),
            from,
        ),
        ValModel::Ref(inner) => {
            if is_var_root {
                lemma_same_shape_paths(*inner, *b->Ref_0, from, false);
            } else {
                lemma_same_shape_paths(*inner, *b->Ref_0, "(*"@ + from + ")"@, false);
            }
        },
        ValModel::Array(items) => lemma_same_shape_item_paths(
            items,
            b->Array_0,
            items.len(),
            from,
        ),
        _ => {},
    }
}

proof fn lemma_same_shape_field_paths(
    xs: Seq<ValModel>,
    ys: Seq<ValModel>,
    n: nat,
    from: Seq<char>,
)
    requires
        n <= xs.len(),
        xs.len() == ys.len(),
        forall|i: int| 0 <= i < xs.len() ==> (#[trigger] xs[i]).same_shape(ys[i]),
    ensures
        ValModel::rust_field_paths(xs, n, from) == ValModel::rust_field_paths(ys, n, from),
    decreases xs, n,
{
    if n > 0 {
        lemma_same_shape_field_paths(xs, ys, (n - 1) as nat, from);
        assert(xs[n - 1].same_shape(ys[n - 1]));
        lemma_same_shape_paths(
            xs[n - 1],
            ys[n - 1],
            from + "."@ + crate::abis::rust_text::field_name((n - 1) as nat),
            false,
        );
    }
}

proof fn lemma_same_shape_item_paths(
    xs: Seq<ValModel>,
    ys: Seq<ValModel>,
    n: nat,
    from: Seq<char>,
)
    requires
        n <= xs.len(),
        xs.len() == ys.len(),
        forall|i: int| 0 <= i < xs.len() ==> (#[trigger] xs[i]).same_shape(ys[i]),
    ensures
        ValModel::rust_item_paths(xs, n, from) == ValModel::rust_item_paths(ys, n, from),
    decreases xs, n,
{
    if n > 0 {
        lemma_same_shape_item_paths(xs, ys, (n - 1) as nat, from);
        assert(xs[n - 1].same_shape(ys[n - 1]));
        lemma_same_shape_paths(
            xs[n - 1],
            ys[n - 1],
            from + "["@ + crate::text::decimal((n - 1) as nat) + "]"@,
            false,
        );
    }
}

/// A value has one leaf path for each of its scalar leaves, wherever it is
/// stored and whether or not it is the root of a variable.
pub proof fn lemma_one_path_per_leaf(v: ValModel, from: Seq<char>, is_var_root: bool)
    ensures
        v.rust_paths(from, is_var_root).len() == v.leaves().len(),
    decreases v, 0nat,
{
    match v {
        ValModel::Struct(_, fields) => lemma_field_paths_per_leaf(fields, fields.len(), from),
        ValModel::Ref(inner) => {
            if is_var_root {
                lemma_one_path_per_leaf(*inner, from, false);
            } else {
                lemma_one_path_per_leaf(*inner, "(*"@ + from + ")"@, false);
            }
        },
        ValModel::Array(items) => lemma_item_paths_per_leaf(items, items.len(), from),
        _ => {},
    }
}

proof fn lemma_field_paths_per_leaf(xs: Seq<ValModel>, n: nat, from: Seq<char>)
    requires
        n <= xs.len(),
    ensures
        ValModel::rust_field_paths(xs, n, from).len() == ValModel::leaves_upto(xs, n).len(),
    decreases xs, n,
{
    if n > 0 {
        lemma_field_paths_per_leaf(xs, (n - 1) as nat, from);
        lemma_one_path_per_leaf(
            xs[n - 1],
            from + "."@ + crate::abis::rust_text::field_name((n - 1) as nat),
            false,
        );
    }
}

proof fn lemma_item_paths_per_leaf(xs: Seq<ValModel>, n: nat, from: Seq<char>)
    requires
        n <= xs.len(),
    ensures
        ValModel::rust_item_paths(xs, n, from).len() == ValModel::leaves_upto(xs, n).len(),
    decreases xs, n,
{
    if n > 0 {
        lemma_item_paths_per_leaf(xs, (n - 1) as nat, from);
        lemma_one_path_per_leaf(
            xs[n - 1],
            from + "["@ + crate::text::decimal((n - 1) as nat) + "]"@,
            false,
        );
    }
}

/// The default of a value fits the value's type. The default expression is the
/// literal of the value with every scalar set to zero; that value has the type
/// of the value itself, and stored at the same place it has the same leaf
/// paths, each leading to a scalar of the same type, hence of the same size.
pub proof fn default_fits_declared_type(v: ValModel, from: Seq<char>, is_var_root: bool)
    ensures
        v.rust_default() == v.zeroed().rust_literal(),
        v.same_shape(v.zeroed()),
        v.zeroed().rust_typed() == v.rust_typed(),
        v.zeroed().rust_type() == v.rust_type(),
        v.zeroed().rust_paths(from, is_var_root) == v.rust_paths(from, is_var_root),
        v.zeroed().leaves().len() == v.leaves().len(),
        forall|i: int|
            0 <= i < v.leaves().len() ==> (#[trigger] v.leaves()[i]).same_shape(
                v.zeroed().leaves()[i],
            ),
{
    lemma_zeroed_same_shape(v);
    lemma_same_shape_type(v, v.zeroed());
    lemma_same_shape_paths(v, v.zeroed(), from, is_var_root);
    lemma_same_shape_leaves(v, v.zeroed());
}

/// The layout of a value goes by its shape alone. Two values of the same shape
/// have the same type and, stored at the same place, the same leaf paths in the
/// same order, each leading to scalars of one type in both.
pub proof fn layout_follows_shape(a: ValModel, b: ValModel, from: Seq<char>, is_var_root: bool)
    requires
        a.same_shape(b),
    ensures
        a.rust_typed() == b.rust_typed(),
        a.rust_type() == b.rust_type(),
        a.rust_paths(from, is_var_root) == b.rust_paths(from, is_var_root),
        a.leaves().len() == b.leaves().len(),
        forall|i: int|
            0 <= i < a.leaves().len() ==> (#[trigger] a.leaves()[i]).same_shape(b.leaves()[i]),
{
    lemma_same_shape_type(a, b);
    lemma_same_shape_paths(a, b, from, is_var_root);
    lemma_same_shape_leaves(a, b);
}

/// The path at `i` is the one that the route to leaf `i` leads to.
pub proof fn lemma_path_follows_route(v: ValModel, from: Seq<char>, is_var_root: bool, i: int)
    requires
        0 <= i < v.leaves().len(),
    ensures
        v.rust_paths(from, is_var_root).len() == v.leaves().len(),
        v.rust_paths(from, is_var_root)[i] == rust_route_path(v.route(i), from, is_var_root),
    decreases v, 0nat,
{
    lemma_one_path_per_leaf(v, from, is_var_root);
    match v {
        ValModel::Struct(_, fields) => lemma_part_path_follows_route(
            fields,
            fields.len(),
            from,
            is_var_root,
            i,
            true,
        ),
        ValModel::Ref(inner) => {
            lemma_path_follows_route(*inner, rust_step(from, Step::Deref, is_var_root), false, i);
            assert(v.route(i).drop_first() =~= inner.route(i));
        },
        ValModel::Array(items) => lemma_part_path_follows_route(
            items,
            items.len(),
            from,
            is_var_root,
            i,
            false,
        ),
        _ => {},
    }
}

/// The paths of the first `n` parts of a composite: fields where `named`
/// holds, items where not.
spec fn part_paths(parts: Seq<ValModel>, n: nat, from: Seq<char>, named: bool) -> Seq<Seq<char>> {
    if named {
        ValModel::rust_field_paths(parts, n, from)
    } else {
        ValModel::rust_item_paths(parts, n, from)
    }
}

proof fn lemma_part_path_follows_route(
    parts: Seq<ValModel>,
    n: nat,
    from: Seq<char>,
    is_var_root: bool,
    i: int,
    named: bool,
)
    requires
        n <= parts.len(),
        0 <= i < ValModel::leaves_upto(parts, n).len(),
    ensures
        part_paths(parts, n, from, named).len() == ValModel::leaves_upto(parts, n).len(),
        part_paths(parts, n, from, named)[i] == rust_route_path(
            ValModel::route_in(parts, n, i, named),
            from,
            is_var_root,
        ),
    decreases parts, n,
{
    if named {
        lemma_field_paths_per_leaf(parts, n, from);
        lemma_field_paths_per_leaf(parts, (n - 1) as nat, from);
    } else {
        lemma_item_paths_per_leaf(parts, n, from);
        lemma_item_paths_per_leaf(parts, (n - 1) as nat, from);
    }
    let before = ValModel::leaves_upto(parts, (n - 1) as nat).len();
    if i < before {
        lemma_part_path_follows_route(parts, (n - 1) as nat, from, is_var_root, i, named);
    } else {
        let step = if named {
            Step::Field((n - 1) as nat)
        } else {
            Step::Item((n - 1) as nat)
        };
        let base = rust_step(from, step, is_var_root);
        lemma_path_follows_route(parts[n - 1], base, false, i - before);
        let route = ValModel::route_in(parts, n, i, named);
        assert(route.drop_first() =~= parts[n - 1].route(i - before));
        assert(route[0] == step);
    }
}

/// Caller and callee walk the same leaves in the same order. Wherever a value
/// is stored and whichever side asks, it has one path for each of its scalar
/// leaves, and the path at `i` is where the route to leaf `i` leads from that
/// place. The route goes by the value alone, and following it from the value
/// ends at leaf `i`: so the paths at `i` of the two sides go through the same
/// fields, items and references, to the same leaf.
pub proof fn leaf_order_is_shared(
    v: ValModel,
    caller_from: Seq<char>,
    caller_root: bool,
    callee_from: Seq<char>,
    callee_root: bool,
)
    ensures
        v.rust_paths(caller_from, caller_root).len() == v.leaves().len(),
        v.rust_paths(callee_from, callee_root).len() == v.leaves().len(),
        forall|i: int|
            0 <= i < v.leaves().len() ==> {
                &&& #[trigger] v.rust_paths(caller_from, caller_root)[i] == rust_route_path(
                    v.route(i),
                    caller_from,
                    caller_root,
                )
                &&& v.rust_paths(callee_from, callee_root)[i] == rust_route_path(
                    v.route(i),
                    callee_from,
                    callee_root,
                )
                &&& v.follow(v.route(i)) == v.leaves()[i]
            },
{
    lemma_one_path_per_leaf(v, caller_from, caller_root);
    lemma_one_path_per_leaf(v, callee_from, callee_root);
    assert forall|i: int| 0 <= i < v.leaves().len() implies {
        &&& #[trigger] v.rust_paths(caller_from, caller_root)[i] == rust_route_path(
            v.route(i),
            caller_from,
            caller_root,
        )
        &&& v.rust_paths(callee_from, callee_root)[i] == rust_route_path(
            v.route(i),
            callee_from,
            callee_root,
        )
        &&& v.follow(v.route(i)) == v.leaves()[i]
    } by {
        lemma_path_follows_route(v, caller_from, caller_root, i);
        lemma_path_follows_route(v, callee_from, callee_root, i);
        lemma_route_leads_to_leaf(v, i);
    }
}

/// Among the values there is a first that cannot be declared, or none.
pub proof fn lemma_first_undeclarable_exists(vals: Seq<ValModel>)
    ensures
        is_first_undeclarable(vals, first_undeclarable(vals)),
{
    lemma_search_undeclarable(vals, 0);
}

proof fn lemma_search_undeclarable(vals: Seq<ValModel>, n: nat)
    requires
        n <= vals.len(),
        forall|j: int| 0 <= j < n ==> (#[trigger] vals[j]).rust_declarable(),
    ensures
        exists|k: int| is_first_undeclarable(vals, k),
    decreases vals.len() - n,
{
    if n == vals.len() || !vals[n as int].rust_declarable() {
        assert(is_first_undeclarable(vals, n as int));
    } else {
        lemma_search_undeclarable(vals, n + 1);
    }
}

/// Among the declarations there is a first that contradicts an earlier one, or
/// none.
pub proof fn lemma_first_collision_exists(decls: Seq<Decl>)
    ensures
        is_first_collision(decls, first_collision(decls)),
{
    lemma_search_collision(decls, 0);
}

proof fn lemma_search_collision(decls: Seq<Decl>, n: nat)
    requires
        n <= decls.len(),
        forall|k: int| 0 <= k < n ==> !collides(decls, k),
    ensures
        exists|j: int| is_first_collision(decls, j),
    decreases decls.len() - n,
{
    if n == decls.len() || collides(decls, n as int) {
        assert(is_first_collision(decls, n as int));
    } else {
        lemma_search_collision(decls, n + 1);
    }
}

/// The declarations of fewer values are the start of those of more.
pub proof fn lemma_decls_grow(vals: Seq<ValModel>, k: nat, n: nat)
    requires
        k <= n <= vals.len(),
    ensures
        decls_upto(vals, k).len() <= decls_upto(vals, n).len(),
        forall|i: int|
            0 <= i < decls_upto(vals, k).len() ==> decls_upto(vals, k)[i] == decls_upto(vals, n)[i],
    decreases n,
{
    if k < n {
        lemma_decls_grow(vals, k, (n - 1) as nat);
    }
}

/// Structs that are declared inconsistently are rejected. Let the first `k`
/// values of a test be such that their structs can be declared, and let two of
/// the declarations that they give rise to have one name and different
/// definitions. Then prelude, caller and callee are all refused with
/// `InconsistentStructDefinition`, and the error names a struct with the two
/// definitions that it came with.
pub proof fn inconsistent_structs_are_rejected(
    test: TestModel,
    convention: CallingConvention,
    k: nat,
)
    requires
        k <= test.values().len(),
        forall|j: int| 0 <= j < k ==> (#[trigger] test.values()[j]).rust_declarable(),
        !consistent(decls_upto(test.values(), k)),
    ensures
        rust_prefix(test) matches Err(
            BuildErrorModel::InconsistentStructDefinition { name, old_decl, new_decl },
        ) && old_decl != new_decl && (exists|i: int, j: int|
            {
                &&& 0 <= i < j < decls_upto(test.values(), test.values().len()).len()
                &&& #[trigger] decls_upto(test.values(), test.values().len())[i] == (name, old_decl)
                &&& #[trigger] decls_upto(test.values(), test.values().len())[j] == (name, new_decl)
            }),
        rust_caller(test, convention) == Err::<Seq<char>, BuildErrorModel>(rust_prefix(test)->Err_0),
        rust_callee(test, convention) == Err::<Seq<char>, BuildErrorModel>(rust_prefix(test)->Err_0),
{
    let vals = test.values();
    lemma_first_undeclarable_exists(vals);
    let stop = first_undeclarable(vals);
    assert(stop >= k) by {
        if stop < k {
            assert(vals[stop].rust_declarable());
        }
    }
    let shorter = decls_upto(vals, k);
    let decls = decls_upto(vals, stop as nat);
    let all = decls_upto(vals, vals.len());
    lemma_decls_grow(vals, k, stop as nat);
    lemma_decls_grow(vals, stop as nat, vals.len());
    lemma_first_collision_exists(decls);
    let first = first_collision(decls);
    let j0 = choose|j: int| 0 <= j < shorter.len() && collides(shorter, j);
    let i0 = choose|i: int|
        0 <= i < j0 && (#[trigger] shorter[i]).0 == shorter[j0].0 && shorter[i].1 != shorter[j0].1;
    assert(decls[i0] == shorter[i0]);
    assert(decls[j0] == shorter[j0]);
    assert(collides(decls, j0));
    assert(first < decls.len());
    assert(collides(decls, first));
    let i1 = choose|i: int|
        0 <= i < first && (#[trigger] decls[i]).0 == decls[first].0 && decls[i].1 != decls[first].1;
    assert(all[i1] == decls[i1]);
    assert(all[first] == decls[first]);
    assert(all[i1] == (decls[first].0, earlier_decl(decls, first)));
    assert(all[first] == (decls[first].0, decls[first].1));
}

} // verus!

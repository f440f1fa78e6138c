//! The HTTP methods a path item holds operations for, and the order in which
//! it lists them.

use vstd::prelude::*;

verus! {

/// An HTTP method for which a path item can define an operation.
#[derive(Clone, Copy, Debug, PartialEq, Eq, Structural)]
pub enum Method {
    /// `get`
    Get,
    /// `put`
    Put,
    /// `post`
    Post,
    /// `delete`
    Delete,
    /// `options`
    Options,
    /// `head`
    Head,
    /// `patch`
    Patch,
    /// `trace`
    Trace,
}

/// The methods in the order a path item lists its operations.
pub open spec fn method_order() -> Seq<Method> {
    seq![
        Method::Get,
        Method::Put,
        Method::Post,
        Method::Delete,
        Method::Options,
        Method::Head,
        Method::Patch,
        Method::Trace,
    ]
}

/// The lower-case name of a method, as a path item's key spells it.
pub open spec fn method_name(method: Method) -> Seq<char> {
    match method {
        Method::Get => "get"@,
        Method::Put => "put"@,
        Method::Post => "post"@,
        Method::Delete => "delete"@,
        Method::Options => "options"@,
        Method::Head => "head"@,
        Method::Patch => "patch"@,
        Method::Trace => "trace"@,
    }
}

/// The methods among the first `n` of [`method_order`] whose slot in
/// `present` is set, in that order.
pub open spec fn present_methods(present: Seq<bool>, n: nat) -> Seq<Method>
    decreases n,
{
    if n == 0 {
        Seq::empty()
    } else {
        let before = present_methods(present, (n - 1) as nat);
        if present[n - 1] {
            before.push(method_order()[n - 1])
        } else {
            before
        }
    }
}

impl Method {
    /// The lower-case name of this method.
    pub fn as_str(self) -> (name: &'static str)
        ensures
            name@ == method_name(self),
    {
        match self {
            Method::Get => "get",
            Method::Put => "put",
            Method::Post => "post",
            Method::Delete => "delete",
            Method::Options => "options",
            Method::Head => "head",
            Method::Patch => "patch",
            Method::Trace => "trace",
        }
    }
}

/// The method at position `i` of [`method_order`].
fn method_at(i: usize) -> (method: Method)
    requires
        i < 8,
    ensures
        method == method_order()[i as int],
{
    match i {
        0 => Method::Get,
        1 => Method::Put,
        2 => Method::Post,
        3 => Method::Delete,
        4 => Method::Options,
        5 => Method::Head,
        6 => Method::Patch,
        _ => Method::Trace,
    }
}

/// The methods a path item defines operations for, in the order it lists
/// them: `present[i]` tells whether the `i`-th method of get, put, post,
/// delete, options, head, patch, trace has an operation.
pub fn operation_methods(present: [bool; 8]) -> (methods: Vec<Method>)
    ensures
        methods@ == present_methods(present@, 8),
{
    let mut methods: Vec<Method> = Vec::new();
    let mut i: usize = 0;
    while i < 8
        invariant
            i <= 8,
            present@.len() == 8,
            methods@ == present_methods(present@, i as nat),
        decreases 8 - i,
    {
        if present[i] {
            methods.push(method_at(i));
        }
        i = i + 1;
    }
    methods
}

/// Each method is named by its own lower-case spelling.
pub proof fn law_method_names()
    ensures
        method_name(Method::Get) == "get"@,
        method_name(Method::Put) == "put"@,
        method_name(Method::Post) == "post"@,
        method_name(Method::Delete) == "delete"@,
        method_name(Method::Options) == "options"@,
        method_name(Method::Head) == "head"@,
        method_name(Method::Patch) == "patch"@,
        method_name(Method::Trace) == "trace"@,
{
}

/// The `i`-th slot of a path item stands for the `i`-th of get, put, post,
/// delete, options, head, patch and trace: with only that slot set, exactly
/// that one method is listed, and it goes by that name.
pub proof fn law_each_slot_lists_its_own_method(i: int)
    requires
        0 <= i < 8,
    ensures
        ({
            let only = Seq::new(8, |j: int| j == i);
            let listed = present_methods(only, 8);
            &&& listed.len() == 1
            &&& method_name(listed[0]) == seq![
                "get"@,
                "put"@,
                "post"@,
                "delete"@,
                "options"@,
                "head"@,
                "patch"@,
                "trace"@,
            ][i]
        }),
{
    reveal_with_fuel(present_methods, 9);
    let only = Seq::new(8, |j: int| j == i);
    let listed = present_methods(only, 8);
    assert(listed =~= seq![method_order()[i]]);
}

proof fn lemma_present_methods_contain(present: Seq<bool>, n: nat)
    requires
        present.len() == 8,
        n <= 8,
    ensures
        forall|k: int|
            0 <= k < 8 ==> (present_methods(present, n).contains(#[trigger] method_order()[k])
                <==> (k < n && present[k])),
    decreases n,
{
    let order = method_order();
    assert(order =~= seq![
        Method::Get,
        Method::Put,
        Method::Post,
        Method::Delete,
        Method::Options,
        Method::Head,
        Method::Patch,
        Method::Trace,
    ]);
    if n > 0 {
        lemma_present_methods_contain(present, (n - 1) as nat);
        let before = present_methods(present, (n - 1) as nat);
        assert forall|k: int| 0 <= k < 8 implies (present_methods(present, n).contains(
            #[trigger] order[k],
        ) <==> (k < n && present[k])) by {
            if present[n - 1] {
                let after = before.push(order[n - 1]);
                assert(after.contains(order[k]) <==> (before.contains(order[k]) || order[n - 1]
                    == order[k])) by {
                    if after.contains(order[k]) {
                        let w = choose|w: int| 0 <= w < after.len() && after[w] == order[k];
                        if w < before.len() {
                            assert(before[w] == order[k]);
                        }
                    }
                    if before.contains(order[k]) {
                        let w = choose|w: int| 0 <= w < before.len() && before[w] == order[k];
                        assert(after[w] == order[k]);
                    }
                    assert(after[before.len() as int] == order[n - 1]);
                }
            }
        }
    } else {
        assert(present_methods(present, 0) =~= Seq::<Method>::empty());
    }
}

/// A method is listed exactly when its slot is set.
pub proof fn law_listed_methods_follow_the_slots(present: Seq<bool>)
    requires
        present.len() == 8,
    ensures
        forall|k: int|
            0 <= k < 8 ==> (present_methods(present, 8).contains(#[trigger] method_order()[k])
                <==> present[k]),
{
    lemma_present_methods_contain(present, 8);
}

} // verus!

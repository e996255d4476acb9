//! The `extern "Rust"` half of the bridge: functions that D calls into.
//!
//! Every exported function runs its work inside `cxx::private::prevent_unwind`,
//! so that no panic can cross the C ABI.

use vstd::prelude::*;

verus! {

/// `cxx::private::prevent_unwind(label, f)` calls `f` once and hands back
/// exactly what `f` returned; if `f` unwinds, a guard aborts the process.
/// The contract claims this: `f` must be callable (it is never entered on an
/// input where it would panic), and the result is one that `f` can return.
pub assume_specification<F, R>[ cxx::private::prevent_unwind::<F, R> ](
    label: &'static str,
    foreign_call: F,
) -> (ret: R)
    where
        F: FnOnce() -> R,
    requires
        call_requires(foreign_call, ()),
    ensures
        call_ensures(foreign_call, (), ret),
;

/// Shared struct with the same layout on both sides of the bridge.
pub struct Greeting {
    pub name: String,
    pub count: i32,
}

/// Opaque value allocated and owned by Rust; D holds it behind a pointer.
pub struct RustHandle {
    value: String,
}

impl RustHandle {
    /// Only `make_handle` builds a handle and nothing changes one, so every
    /// handle carries the text a fresh one gets.
    #[verifier::type_invariant]
    spec fn carries_fresh_text(self) -> bool {
        self.value@ == fresh_handle_text()
    }
}

impl View for RustHandle {
    type V = Seq<char>;

    /// A handle is seen as the text it describes itself with.
    closed spec fn view(&self) -> Seq<char> {
        self.value@
    }
}

/// The text that `rust_greet` returns for `name`.
pub open spec fn greeting_text(name: Seq<char>) -> Seq<char> {
    "Hello, "@ + name + "! (count=1)"@
}

/// The text that a freshly made handle carries.
pub open spec fn fresh_handle_text() -> Seq<char> {
    "rust-handle"@
}

/// The name stands whole inside its greeting, right after `Hello, `, and the
/// greeting is 18 characters longer than the name.
pub proof fn lemma_greeting_holds_name(name: Seq<char>)
    ensures
        greeting_text(name).len() == name.len() + 18,
        greeting_text(name).subrange(7, 7 + name.len() as int) == name,
{
    reveal_strlit("Hello, ");
    reveal_strlit("! (count=1)");
    assert(greeting_text(name).subrange(7, 7 + name.len() as int) =~= name);
}

/// Two names get the same greeting only if they are the same name.
pub proof fn lemma_greeting_determines_name(a: Seq<char>, b: Seq<char>)
    requires
        greeting_text(a) == greeting_text(b),
    ensures
        a == b,
{
    lemma_greeting_holds_name(a);
    lemma_greeting_holds_name(b);
}

fn compose_greeting(name: &str) -> (greeting: String)
    ensures
        greeting@ == greeting_text(name@),
{
    let mut greeting = String::from_str("Hello, ");
    greeting.append(name);
    greeting.append("! (count=1)");
    greeting
}

fn fresh_handle() -> (handle: Box<RustHandle>)
    ensures
        handle@ == fresh_handle_text(),
{
    Box::new(RustHandle { value: String::from_str("rust-handle") })
}

fn describe(handle: &RustHandle) -> (description: String)
    ensures
        description@ == handle@,
        description@ == fresh_handle_text(),
{
    proof {
        use_type_invariant(handle);
    }
    handle.value.clone()
}

/// Returns the greeting `Hello, {name}! (count=1)`.
pub fn rust_greet(name: &str) -> (greeting: String)
    ensures
        greeting@ == greeting_text(name@),
{
    cxx::private::prevent_unwind("rust_greet", || -> (g: String)
        ensures
            g@ == greeting_text(name@),
        { compose_greeting(name) })
}

/// Allocates a `RustHandle` on the Rust heap; D receives the box.
pub fn make_handle() -> (handle: Box<RustHandle>)
    ensures
        handle@ == fresh_handle_text(),
{
    cxx::private::prevent_unwind("make_handle", || -> (h: Box<RustHandle>)
        ensures
            h@ == fresh_handle_text(),
        { fresh_handle() })
}

/// Describes a `RustHandle` without consuming it. Every handle describes
/// itself as `rust-handle`.
pub fn handle_describe(handle: &RustHandle) -> (description: String)
    ensures
        description@ == handle@,
        description@ == fresh_handle_text(),
{
    cxx::private::prevent_unwind("handle_describe", || -> (d: String)
        ensures
            d@ == handle@,
            d@ == fresh_handle_text(),
        { describe(handle) })
}

} // verus!

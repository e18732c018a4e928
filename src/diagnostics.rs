use vstd::prelude::*;

verus! {

/// `serde_json::Value`, declared so that a diagnostic can carry its position
/// as JSON. Nothing is read from inside it.
#[verifier::external_type_specification]
#[verifier::external_body]
pub struct ExValue(serde_json::Value);

/// One finding of the parser: its severity, its message, and where in the
/// source it points, as plain JSON.
#[derive(Debug)]
pub struct Diagnostic {
    pub level: String,
    pub message: String,
    pub span: serde_json::Value,
}

/// The findings of a parse that produced a tree: `None` where there were
/// none, else all of them in the order they were reported.
pub fn recoverable_errors(diagnostics: Vec<Diagnostic>) -> (r: Option<Vec<Diagnostic>>)
    ensures
        diagnostics@.len() == 0 ==> r is None,
        diagnostics@.len() > 0 ==> r == Some(diagnostics),
{
    if diagnostics.len() == 0 {
        None
    } else {
        Some(diagnostics)
    }
}

/// The findings of a parse that produced no tree: the fatal one first, then
/// those reported before it, in their order.
pub fn fatal_batch(fatal: Diagnostic, recovered: Vec<Diagnostic>) -> (r: Vec<Diagnostic>)
    ensures
        r@ == seq![fatal] + recovered@,
{
    let ghost f = fatal;
    let mut out: Vec<Diagnostic> = Vec::new();
    out.push(fatal);
    let mut rest = recovered;
    let ghost all = rest@;
    let ghost n = rest@.len();
    proof {
        assert(rest@ =~= all.skip(0));
        assert(out@ =~= seq![f] + all.take(0));
    }
    while rest.len() > 0
        invariant
            n == all.len(),
            rest@.len() <= n,
            rest@ == all.skip(n - rest@.len()),
            out@ == seq![f] + all.take(n - rest@.len()),
        decreases rest@.len(),
    {
        let ghost done = n - rest@.len();
        let d = rest.remove(0);
        proof {
            assert(d == all[done]);
            assert(rest@ =~= all.skip(done + 1));
        }
        out.push(d);
        proof {
            assert(out@ =~= seq![f] + all.take(done + 1));
        }
    }
    proof {
        assert(all.take(n as int) =~= all);
    }
    out
}

} // verus!

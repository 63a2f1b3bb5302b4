//! What the shell asks of the host's output sink: raw text to append,
//! or wiping the display.
use vstd::prelude::*;

verus! {

/// One request to the output sink.
#[derive(Debug)]
pub enum SinkOp {
    Write(String),
    Clear,
}

/// The mathematical value of a sink request.
pub ghost enum SinkOpV {
    Write(Seq<char>),
    Clear,
}

impl View for SinkOp {
    type V = SinkOpV;

    open spec fn view(&self) -> SinkOpV {
        match self {
            SinkOp::Write(text) => SinkOpV::Write(text@),
            SinkOp::Clear => SinkOpV::Clear,
        }
    }
}

/// The values of a run of sink requests.
pub open spec fn ops_view(ops: Seq<SinkOp>) -> Seq<SinkOpV> {
    ops.map_values(|op: SinkOp| op@)
}

/// Viewing distributes over concatenation.
pub proof fn lemma_ops_view_concat(a: Seq<SinkOp>, b: Seq<SinkOp>)
    ensures
        ops_view(a + b) =~= ops_view(a) + ops_view(b),
{
    assert forall|i: int| 0 <= i < (a + b).len() implies ops_view(a + b)[i] == (ops_view(a)
        + ops_view(b))[i] by {
        if i < a.len() {
            assert((a + b)[i] == a[i]);
        } else {
            assert((a + b)[i] == b[i - a.len()]);
        }
    }
}

} // verus!

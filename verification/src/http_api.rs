use vstd::prelude::*;

verus! {

use crate::api::{compare_from_code_and_student, spec_diagram};
use crate::compare::spec_mistakes;
use crate::mistake::Mistake;
use crate::model::Diagram;

/// One comparison request: the source text and the diagram drawn for it.
pub struct CompareRequest {
    pub source_code: String,
    pub student_diagram: Diagram,
}

/// The comparison's answer: the mistakes found.
pub struct CompareResponse {
    pub mistakes: Vec<Mistake>,
}

/// Answers one comparison request: the mistakes of the drawn diagram
/// against the diagram the source induces.
pub fn handle_compare(req: CompareRequest) -> (r: CompareResponse)
    ensures
        r.mistakes@.map_values(|m: Mistake| m@) == spec_mistakes(
            spec_diagram(req.source_code@),
            req.student_diagram@,
        ),
{
    let mistakes = compare_from_code_and_student(req.source_code.as_str(), &req.student_diagram);
    CompareResponse { mistakes }
}

} // verus!

//! The phases of the REST source: what each gives once its queries have run.

use crate::error::DhcpResult;
use crate::server::Phase;
use crate::sources::mapping::{
    ending_told, fault_of, mapping_contents, mapping_outcome, mapping_told, never_fatal,
    outcome_of, state_of, MappingFault, MappingState,
};
use crate::sources::query::context_bindings;
use crate::sources::rest::{DhcpRestSource, DhcpRestSourceConfig, DhcpRestSourceConfigSchema};
use crate::sources::DhcpSourceResult;
use vstd::prelude::*;

verus! {

/// What the answer of a phase stands for: the state that its result holds,
/// or the fault that its error tells of.
pub open spec fn answer_of(r: DhcpResult<Option<DhcpSourceResult>>) -> Result<
    MappingState,
    MappingFault,
> {
    match r {
        Ok(Some(result)) => Ok(state_of(result)),
        Ok(None) => Err(MappingFault::Template),
        Err(e) => Err(fault_of(e)),
    }
}

/// Whether a phase has gone from `before` to `after` by mapping its mapping
/// against a context of the given bindings, with the answer `r`.
pub open spec fn phase_mapped(
    before: DhcpRestSourceConfigSchema,
    after: DhcpRestSourceConfigSchema,
    r: DhcpResult<Option<DhcpSourceResult>>,
    bindings: Map<Seq<char>, serde_json::Value>,
) -> bool {
    &&& after.scripts == before.scripts
    &&& after.queries == before.queries
    &&& after.strict == before.strict
    &&& r matches Ok(answer) ==> answer is Some
    &&& exists|expanded: Seq<bool>|
        {
            &&& #[trigger] mapping_outcome(
                mapping_contents(before.mapping@),
                mapping_contents(after.mapping@),
                expanded,
                answer_of(r),
                before.strict,
                bindings,
            )
            &&& r matches Err(e) ==> ending_told(
                mapping_contents(before.mapping@),
                mapping_contents(after.mapping@),
                expanded,
                e,
                before.strict,
                bindings,
            )
        }
    &&& never_fatal(mapping_contents(before.mapping@)) ==> r is Ok
    &&& r matches Err(e) ==> e is TeraError || e is SerdeYamlError || e is SerdeErrorString
        || e is CustomRestTypeError
}

fn answer(phase: &mut DhcpRestSourceConfigSchema, context: &tera::Context) -> (r: DhcpResult<
    Option<DhcpSourceResult>,
>)
    ensures
        phase_mapped(*old(phase), *final(phase), r, context_bindings(*context)),
{
    let mapped = phase.context_to_result(context);
    let ghost expanded = choose|expanded: Seq<bool>| #[trigger]
        mapping_told(
            mapping_contents(old(phase).mapping@),
            mapping_contents(phase.mapping@),
            expanded,
            mapped,
            old(phase).strict,
            context_bindings(*context),
        );
    proof {
        assert(mapping_told(
            mapping_contents(old(phase).mapping@),
            mapping_contents(phase.mapping@),
            expanded,
            mapped,
            old(phase).strict,
            context_bindings(*context),
        ));
    }
    match mapped {
        Ok(result) => {
            let r = Ok(Some(result));
            assert(answer_of(r) == outcome_of(mapped));
            assert(mapping_outcome(
                mapping_contents(old(phase).mapping@),
                mapping_contents(phase.mapping@),
                expanded,
                answer_of(r),
                old(phase).strict,
                context_bindings(*context),
            ));
            r
        },
        Err(e) => {
            let r = Err(e);
            assert(answer_of(r) == outcome_of(mapped));
            assert(mapping_outcome(
                mapping_contents(old(phase).mapping@),
                mapping_contents(phase.mapping@),
                expanded,
                answer_of(r),
                old(phase).strict,
                context_bindings(*context),
            ));
            r
        },
    }
}

/// Whether a source has gone from `before` to `after` by answering in a
/// phase once the queries of the phase have run: the offer, reserve and
/// inform phases map their mapping, the release and decline phases have no
/// answer and change nothing.
pub open spec fn phase_answered(
    before: DhcpRestSourceConfig,
    after: DhcpRestSourceConfig,
    phase: Phase,
    r: DhcpResult<Option<DhcpSourceResult>>,
    bindings: Map<Seq<char>, serde_json::Value>,
) -> bool {
    &&& phase == Phase::Offer || after.offer == before.offer
    &&& phase == Phase::Reserve || after.reserve == before.reserve
    &&& phase == Phase::Inform || after.inform == before.inform
    &&& after.release == before.release
    &&& after.decline == before.decline
    &&& match phase {
        Phase::Offer => phase_mapped(before.offer, after.offer, r, bindings),
        Phase::Reserve => phase_mapped(before.reserve, after.reserve, r, bindings),
        Phase::Inform => phase_mapped(before.inform, after.inform, r, bindings),
        Phase::Release => r matches Ok(None),
        Phase::Decline => r matches Ok(None),
    }
}

impl DhcpRestSource {
    /// The answer of the source in a phase, once the queries and scripts of
    /// the phase have run.
    pub fn answer(&mut self, phase: Phase, context: &tera::Context) -> (r: DhcpResult<
        Option<DhcpSourceResult>,
    >)
        ensures
            phase_answered(
                old(self).config,
                final(self).config,
                phase,
                r,
                context_bindings(*context),
            ),
    {
        match phase {
            Phase::Offer => self.offer(context),
            Phase::Reserve => self.reserve(context),
            Phase::Inform => self.inform(context),
            Phase::Release => Ok(None),
            Phase::Decline => Ok(None),
        }
    }

    /// The answer to a DISCOVER, once the queries and scripts of the offer
    /// phase have run: the result that its mapping gives in the context.
    pub fn offer(&mut self, context: &tera::Context) -> (r: DhcpResult<Option<DhcpSourceResult>>)
        ensures
            phase_mapped(
                old(self).config.offer,
                final(self).config.offer,
                r,
                context_bindings(*context),
            ),
            final(self).config.reserve == old(self).config.reserve,
            final(self).config.release == old(self).config.release,
            final(self).config.decline == old(self).config.decline,
            final(self).config.inform == old(self).config.inform,
    {
        answer(&mut self.config.offer, context)
    }

    /// The answer to a REQUEST, once the queries of the reserve phase have
    /// run: the result that its mapping gives in the context.
    pub fn reserve(&mut self, context: &tera::Context) -> (r: DhcpResult<
        Option<DhcpSourceResult>,
    >)
        ensures
            phase_mapped(
                old(self).config.reserve,
                final(self).config.reserve,
                r,
                context_bindings(*context),
            ),
            final(self).config.offer == old(self).config.offer,
            final(self).config.release == old(self).config.release,
            final(self).config.decline == old(self).config.decline,
            final(self).config.inform == old(self).config.inform,
    {
        answer(&mut self.config.reserve, context)
    }

    /// The answer to an INFORM, once the queries of the inform phase have
    /// run: the result that its mapping gives in the context.
    pub fn inform(&mut self, context: &tera::Context) -> (r: DhcpResult<Option<DhcpSourceResult>>)
        ensures
            phase_mapped(
                old(self).config.inform,
                final(self).config.inform,
                r,
                context_bindings(*context),
            ),
            final(self).config.offer == old(self).config.offer,
            final(self).config.reserve == old(self).config.reserve,
            final(self).config.release == old(self).config.release,
            final(self).config.decline == old(self).config.decline,
    {
        answer(&mut self.config.inform, context)
    }
}

} // verus!

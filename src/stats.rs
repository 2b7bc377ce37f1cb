//! The feature vector: one flag per tracked construct.
use vstd::prelude::*;

verus! {

/// The number of flags in a feature vector.
pub const N_FLAGS: usize = 14;

/// Which tracked constructs a file uses: each flag is "used at least once".
#[derive(Debug, Clone, Copy, PartialEq, Eq, Structural)]
pub struct Stats {
    pub has_async: bool,
    pub has_async_comp: bool,
    pub has_fstring: bool,
    pub has_modulo_formatting: bool,
    pub has_annotations: bool,
    pub has_try_star: bool,
    pub has_match: bool,
    pub has_walrus: bool,
    pub has_matrix_multiply: bool,
    pub has_dataclasses: bool,
    pub has_generator_expression: bool,
    pub has_list_comp: bool,
    pub has_dict_comp: bool,
    pub has_set_comp: bool,
}

/// The vector with every flag false.
pub open spec fn no_flags() -> Stats {
    Stats {
        has_async: false,
        has_async_comp: false,
        has_fstring: false,
        has_modulo_formatting: false,
        has_annotations: false,
        has_try_star: false,
        has_match: false,
        has_walrus: false,
        has_matrix_multiply: false,
        has_dataclasses: false,
        has_generator_expression: false,
        has_list_comp: false,
        has_dict_comp: false,
        has_set_comp: false,
    }
}

/// The flags set in either vector.
#[verifier::opaque]
pub open spec fn join(a: Stats, b: Stats) -> Stats {
    Stats {
        has_async: a.has_async || b.has_async,
        has_async_comp: a.has_async_comp || b.has_async_comp,
        has_fstring: a.has_fstring || b.has_fstring,
        has_modulo_formatting: a.has_modulo_formatting || b.has_modulo_formatting,
        has_annotations: a.has_annotations || b.has_annotations,
        has_try_star: a.has_try_star || b.has_try_star,
        has_match: a.has_match || b.has_match,
        has_walrus: a.has_walrus || b.has_walrus,
        has_matrix_multiply: a.has_matrix_multiply || b.has_matrix_multiply,
        has_dataclasses: a.has_dataclasses || b.has_dataclasses,
        has_generator_expression: a.has_generator_expression || b.has_generator_expression,
        has_list_comp: a.has_list_comp || b.has_list_comp,
        has_dict_comp: a.has_dict_comp || b.has_dict_comp,
        has_set_comp: a.has_set_comp || b.has_set_comp,
    }
}

/// One tracked construct, and its column in the feature vector.
#[derive(Debug, Clone, Copy, PartialEq, Eq, Structural)]
pub enum Flag {
    Async,
    AsyncComp,
    Fstring,
    ModuloFormatting,
    Annotations,
    TryStar,
    Match,
    Walrus,
    MatrixMultiply,
    Dataclasses,
    GeneratorExpression,
    ListComp,
    DictComp,
    SetComp,
}

/// The vector with `f` set and nothing else.
pub open spec fn flag_stats(f: Flag) -> Stats {
    Stats {
        has_async: f is Async,
        has_async_comp: f is AsyncComp,
        has_fstring: f is Fstring,
        has_modulo_formatting: f is ModuloFormatting,
        has_annotations: f is Annotations,
        has_try_star: f is TryStar,
        has_match: f is Match,
        has_walrus: f is Walrus,
        has_matrix_multiply: f is MatrixMultiply,
        has_dataclasses: f is Dataclasses,
        has_generator_expression: f is GeneratorExpression,
        has_list_comp: f is ListComp,
        has_dict_comp: f is DictComp,
        has_set_comp: f is SetComp,
    }
}

/// `f` where `b` holds, else nothing.
pub open spec fn flag_if(b: bool, f: Flag) -> Stats {
    if b {
        flag_stats(f)
    } else {
        no_flags()
    }
}

pub broadcast proof fn lemma_join_assoc(a: Stats, b: Stats, c: Stats)
    ensures
        #[trigger] join(join(a, b), c) == join(a, join(b, c)),
{
    reveal(join);
}

pub broadcast proof fn lemma_join_none_left(a: Stats)
    ensures
        #[trigger] join(no_flags(), a) == a,
{
    reveal(join);
}

pub broadcast proof fn lemma_join_none_right(a: Stats)
    ensures
        #[trigger] join(a, no_flags()) == a,
{
    reveal(join);
}

pub broadcast group group_join {
    lemma_join_assoc,
    lemma_join_none_left,
    lemma_join_none_right,
}

/// Every flag set in `a` is set in `b`.
pub open spec fn flags_le(a: Stats, b: Stats) -> bool {
    join(a, b) == b
}

impl Stats {
    /// The flags in their fixed column order.
    pub open spec fn flag_seq(self) -> Seq<bool> {
        seq![
            self.has_async,
            self.has_async_comp,
            self.has_fstring,
            self.has_modulo_formatting,
            self.has_annotations,
            self.has_try_star,
            self.has_match,
            self.has_walrus,
            self.has_matrix_multiply,
            self.has_dataclasses,
            self.has_generator_expression,
            self.has_list_comp,
            self.has_dict_comp,
            self.has_set_comp,
        ]
    }

    /// A vector with every flag false.
    pub fn new() -> (r: Stats)
        ensures
            r == no_flags(),
    {
        Stats {
            has_async: false,
            has_async_comp: false,
            has_fstring: false,
            has_modulo_formatting: false,
            has_annotations: false,
            has_try_star: false,
            has_match: false,
            has_walrus: false,
            has_matrix_multiply: false,
            has_dataclasses: false,
            has_generator_expression: false,
            has_list_comp: false,
            has_dict_comp: false,
            has_set_comp: false,
        }
    }

    /// Sets flag `f`, keeping the others.
    pub fn set(&mut self, f: Flag)
        ensures
            *final(self) == join(*old(self), flag_stats(f)),
    {
        proof {
            reveal(join);
        }
        let s = *self;
        *self = Stats {
            has_async: s.has_async || f == Flag::Async,
            has_async_comp: s.has_async_comp || f == Flag::AsyncComp,
            has_fstring: s.has_fstring || f == Flag::Fstring,
            has_modulo_formatting: s.has_modulo_formatting || f == Flag::ModuloFormatting,
            has_annotations: s.has_annotations || f == Flag::Annotations,
            has_try_star: s.has_try_star || f == Flag::TryStar,
            has_match: s.has_match || f == Flag::Match,
            has_walrus: s.has_walrus || f == Flag::Walrus,
            has_matrix_multiply: s.has_matrix_multiply || f == Flag::MatrixMultiply,
            has_dataclasses: s.has_dataclasses || f == Flag::Dataclasses,
            has_generator_expression: s.has_generator_expression || f == Flag::GeneratorExpression,
            has_list_comp: s.has_list_comp || f == Flag::ListComp,
            has_dict_comp: s.has_dict_comp || f == Flag::DictComp,
            has_set_comp: s.has_set_comp || f == Flag::SetComp,
        };
    }

    /// The flags as an array, in column order.
    pub fn into_array(self) -> (r: [bool; 14])
        ensures
            r@ == self.flag_seq(),
    {
        let r = [
            self.has_async,
            self.has_async_comp,
            self.has_fstring,
            self.has_modulo_formatting,
            self.has_annotations,
            self.has_try_star,
            self.has_match,
            self.has_walrus,
            self.has_matrix_multiply,
            self.has_dataclasses,
            self.has_generator_expression,
            self.has_list_comp,
            self.has_dict_comp,
            self.has_set_comp,
        ];
        assert(r@ =~= self.flag_seq());
        r
    }
}

impl Default for Stats {
    fn default() -> (r: Stats)
        ensures
            r == no_flags(),
    {
        Stats::new()
    }
}

} // verus!

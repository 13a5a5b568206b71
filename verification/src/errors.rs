//! Error constructors: for every error of an interface, what its constructor
//! is called, what it takes and what it makes.

use vstd::prelude::*;
use crate::abi::{have_types, types_of, values_view, AbiType, AbiValue};
use crate::error::{ContractError, PrecompileError, Result};
use crate::interface::{
    errors_view, get_error_enum_path, param_types, try_extract_type_ident, types_of_params,
    CatalogueError, ErrorModel, InterfaceError, TypePath,
};

verus! {

/// The constructor of one error: a method of the type that holds the errors of
/// the interface.
#[derive(Debug)]
pub struct ErrorConstructor {
    /// The name of the method.
    pub method_name: &'static str,
    /// The name of the variant that the method makes.
    pub variant_name: String,
    /// The path of the type that the variant holds.
    pub error_type_path: TypePath,
    /// The parameters of the method, which are the fields of that type.
    pub params: Vec<(&'static str, AbiType)>,
}

/// The constructor of one error as plain values.
pub struct ConstructorModel {
    pub method_name: &'static str,
    pub variant_name: Seq<char>,
    pub error_type_path: Seq<Seq<char>>,
    pub params: Seq<(&'static str, AbiType)>,
}

impl View for ErrorConstructor {
    type V = ConstructorModel;

    open spec fn view(&self) -> ConstructorModel {
        ConstructorModel {
            method_name: self.method_name,
            variant_name: self.variant_name@,
            error_type_path: self.error_type_path@,
            params: self.params@,
        }
    }
}

/// The constructor that belongs to an error: named like the error, it makes
/// the variant that is named by the last segment of the path of the error.
pub open spec fn constructor_of(error: ErrorModel) -> ConstructorModel {
    ConstructorModel {
        method_name: error.name,
        variant_name: error.error_type_path.last(),
        error_type_path: error.error_type_path,
        params: error.params,
    }
}

/// The name of the variant of an error: the last segment of its path.
pub fn extract_error_variant_name(error_type_path: &TypePath) -> (r: core::result::Result<
    String,
    CatalogueError,
>)
    ensures
        r is Ok <==> error_type_path@.len() > 0,
        r is Ok ==> r->Ok_0@ == error_type_path@.last(),
        r is Err ==> r->Err_0 == CatalogueError::NotATypePath,
{
    try_extract_type_ident(error_type_path)
}

/// Copies a list of named parameters.
fn copy_params(params: &Vec<(&'static str, AbiType)>) -> (r: Vec<(&'static str, AbiType)>)
    ensures
        r@ == params@,
{
    let mut out: Vec<(&'static str, AbiType)> = Vec::new();
    let mut i: usize = 0;
    while i < params.len()
        invariant
            i <= params@.len(),
            out@ == params@.subrange(0, i as int),
        decreases params@.len() - i,
    {
        out.push(params[i]);
        assert(out@ =~= params@.subrange(0, i + 1));
        i = i + 1;
    }
    assert(params@.subrange(0, params@.len() as int) =~= params@);
    out
}

/// Describes the constructor of an error whose path has a segment.
fn constructor_for(error: &InterfaceError) -> (r: ErrorConstructor)
    requires
        error@.error_type_path.len() > 0,
    ensures
        r@ == constructor_of(error@),
{
    let n = error.error_type_path.segments.len();
    ErrorConstructor {
        method_name: error.name,
        variant_name: error.error_type_path.segments[n - 1].clone(),
        error_type_path: error.error_type_path.duplicate(),
        params: copy_params(&error.params),
    }
}

/// Describes the constructor of one error. There is none for an error whose
/// path has no segment.
pub fn gen_constructor(error: &InterfaceError) -> (r: core::result::Result<
    ErrorConstructor,
    CatalogueError,
>)
    ensures
        r is Ok <==> error@.error_type_path.len() > 0,
        r is Ok ==> r->Ok_0@ == constructor_of(error@),
        r is Err ==> r->Err_0 == CatalogueError::NotATypePath,
{
    match extract_error_variant_name(&error.error_type_path) {
        Ok(_) => Ok(constructor_for(error)),
        Err(e) => Err(e),
    }
}

/// The constructors of the errors of one interface, under the type that holds
/// the errors.
#[derive(Debug)]
pub struct ErrorHelpers {
    pub error_enum_path: TypePath,
    pub methods: Vec<ErrorConstructor>,
}

/// The constructors of the errors of one interface as plain values.
pub struct HelpersModel {
    pub error_enum_path: Seq<Seq<char>>,
    pub methods: Seq<ConstructorModel>,
}

/// The constructors of a list as plain values.
pub open spec fn constructors_view(methods: Seq<ErrorConstructor>) -> Seq<ConstructorModel> {
    Seq::new(methods.len(), |i: int| methods[i]@)
}

impl View for ErrorHelpers {
    type V = HelpersModel;

    open spec fn view(&self) -> HelpersModel {
        HelpersModel {
            error_enum_path: self.error_enum_path@,
            methods: constructors_view(self.methods@),
        }
    }
}

/// The helpers of a list as plain values.
pub open spec fn helpers_view(helpers: Seq<ErrorHelpers>) -> Seq<HelpersModel> {
    Seq::new(helpers.len(), |i: int| helpers[i]@)
}

/// The interfaces of a list as plain values.
pub open spec fn interfaces_view(interfaces: Seq<(TypePath, Vec<InterfaceError>)>) -> Seq<
    (Seq<Seq<char>>, Seq<ErrorModel>),
> {
    Seq::new(interfaces.len(), |i: int| (interfaces[i].0@, errors_view(interfaces[i].1@)))
}

/// Whether an interface gets helpers: it has errors, and its path names it.
pub open spec fn has_helpers(interface: Seq<Seq<char>>, errors: Seq<ErrorModel>) -> bool {
    errors.len() > 0 && interface.len() > 0
}

/// The helpers of an interface that gets some.
pub open spec fn helpers_for(interface: Seq<Seq<char>>, errors: Seq<ErrorModel>) -> HelpersModel {
    HelpersModel {
        error_enum_path: interface.push(interface.last() + "Errors"@),
        methods: Seq::new(errors.len(), |i: int| constructor_of(errors[i])),
    }
}

/// The helpers of the first `n` interfaces: one entry for each interface that
/// gets helpers, in the order of the interfaces.
pub open spec fn helpers_of(interfaces: Seq<(Seq<Seq<char>>, Seq<ErrorModel>)>, n: nat) -> Seq<
    HelpersModel,
>
    decreases n,
{
    if n == 0 {
        Seq::empty()
    } else {
        let earlier = helpers_of(interfaces, (n - 1) as nat);
        let (interface, errors) = interfaces[n - 1];
        if has_helpers(interface, errors) {
            earlier.push(helpers_for(interface, errors))
        } else {
            earlier
        }
    }
}

/// Whether every error of every interface has a path with a segment.
pub open spec fn errors_named(interfaces: Seq<(Seq<Seq<char>>, Seq<ErrorModel>)>) -> bool {
    forall|i: int, j: int|
        0 <= i < interfaces.len() && 0 <= j < interfaces[i].1.len() ==> (
        #[trigger] interfaces[i].1[j]).error_type_path.len() > 0
}

/// Describes the constructors of all errors of all interfaces. An interface
/// without errors gets no entry, and neither does one whose path has no
/// segment.
pub fn gen_error_helpers(interfaces: &Vec<(TypePath, Vec<InterfaceError>)>) -> (r: Vec<
    ErrorHelpers,
>)
    requires
        errors_named(interfaces_view(interfaces@)),
    ensures
        helpers_view(r@) == helpers_of(interfaces_view(interfaces@), interfaces@.len()),
{
    let ghost all = interfaces_view(interfaces@);
    let mut out: Vec<ErrorHelpers> = Vec::new();
    let mut i: usize = 0;
    while i < interfaces.len()
        invariant
            i <= interfaces@.len(),
            all == interfaces_view(interfaces@),
            errors_named(all),
            helpers_view(out@) == helpers_of(all, i as nat),
        decreases interfaces@.len() - i,
    {
        let interface_type = &interfaces[i].0;
        let errors = &interfaces[i].1;
        proof {
            assert(all[i as int] == (interface_type@, errors_view(errors@)));
        }
        if errors.len() > 0 {
            match get_error_enum_path(interface_type) {
                Ok(error_enum_path) => {
                    let mut methods: Vec<ErrorConstructor> = Vec::new();
                    let mut j: usize = 0;
                    while j < errors.len()
                        invariant
                            j <= errors@.len(),
                            i < interfaces@.len(),
                            all == interfaces_view(interfaces@),
                            all[i as int].1 == errors_view(errors@),
                            errors_named(all),
                            methods@.len() == j,
                            forall|k: int|
                                0 <= k < j ==> (#[trigger] methods@[k])@ == constructor_of(
                                    errors@[k]@,
                                ),
                        decreases errors@.len() - j,
                    {
                        proof {
                            assert(all[i as int].1[j as int] == errors@[j as int]@);
                        }
                        methods.push(constructor_for(&errors[j]));
                        j = j + 1;
                    }
                    let ghost before = helpers_view(out@);
                    let helpers = ErrorHelpers { error_enum_path, methods };
                    proof {
                        assert(helpers@.methods =~= helpers_for(
                            interface_type@,
                            errors_view(errors@),
                        ).methods);
                    }
                    out.push(helpers);
                    proof {
                        assert(helpers_view(out@) =~= before.push(
                            helpers_for(interface_type@, errors_view(errors@)),
                        ));
                    }
                },
                Err(_) => {},
            }
        }
        i = i + 1;
    }
    out
}

/// The error with the given values: what the constructor of `error` makes.
/// Values that do not have the types of the parameters of the error are
/// refused.
pub fn construct(error: &InterfaceError, args: Vec<AbiValue>) -> (r: Result<ContractError>)
    ensures
        match r {
            Ok(made) => types_of(values_view(args@)) == param_types(error@.params)
                && made.signature@ == error@.signature() && made.args == args,
            Err(e) => types_of(values_view(args@)) != param_types(error@.params) && e
                == PrecompileError::AbiEncodeError(error.name),
        },
{
    let types = types_of_params(&error.params);
    if !have_types(&args, &types) {
        return Err(PrecompileError::AbiEncodeError(error.name));
    }
    Ok(ContractError { signature: error.signature(), args })
}

} // verus!

//! The interface catalogue: for every interface that a native contract can
//! implement, its functions, events and errors.

use vstd::prelude::*;
use vstd::string::StringExecFns;
use crate::abi::AbiType;
use crate::hash::{digest_of_text, selector, text_digest, text_selector};
use crate::primitives::U256;

pub mod registry;
pub mod tip20;

verus! {

/// The path by which a type is named, segment by segment.
#[derive(Debug)]
pub struct TypePath {
    pub segments: Vec<String>,
}

/// The characters of each string of a list.
pub open spec fn strings_view(strings: Seq<String>) -> Seq<Seq<char>> {
    Seq::new(strings.len(), |i: int| strings[i]@)
}

impl View for TypePath {
    type V = Seq<Seq<char>>;

    open spec fn view(&self) -> Seq<Seq<char>> {
        strings_view(self.segments@)
    }
}

impl TypePath {
    /// The path with the given segments.
    pub fn new(segments: Vec<String>) -> (r: TypePath)
        ensures
            r@ == strings_view(segments@),
    {
        TypePath { segments }
    }

    /// The path of the one segment `ident`.
    pub fn from_ident(ident: &str) -> (r: TypePath)
        ensures
            r@ == seq![ident@],
    {
        let mut segments: Vec<String> = Vec::new();
        segments.push(String::from_str(ident));
        let r = TypePath { segments };
        assert(r@ =~= seq![ident@]);
        r
    }

    /// A copy of the path.
    pub fn duplicate(&self) -> (r: TypePath)
        ensures
            r@ == self@,
    {
        let mut segments: Vec<String> = Vec::new();
        let mut i: usize = 0;
        while i < self.segments.len()
            invariant
                i <= self.segments@.len(),
                segments@.len() == i,
                forall|k: int| 0 <= k < i ==> segments@[k]@ == self.segments@[k]@,
            decreases self.segments@.len() - i,
        {
            segments.push(self.segments[i].clone());
            i = i + 1;
        }
        let r = TypePath { segments };
        assert(r@ =~= self@);
        r
    }

    /// The path with `segment` behind its last segment.
    pub fn join(&self, segment: String) -> (r: TypePath)
        ensures
            r@ == self@.push(segment@),
    {
        let mut r = self.duplicate();
        r.segments.push(segment);
        assert(r@ =~= self@.push(segment@));
        r
    }
}

/// A function of an interface.
#[derive(Debug)]
pub struct InterfaceFunction {
    /// The name of the handler, in snake case.
    pub name: &'static str,
    /// The name of the function in the interface.
    pub sol_name: &'static str,
    /// The parameters: name and type of each.
    pub params: Vec<(&'static str, AbiType)>,
    /// The types of the returned values; none for a function that returns
    /// nothing.
    pub return_type: Vec<AbiType>,
    /// Whether the function only reads state.
    pub is_view: bool,
    /// The path of the type that stands for a call of the function.
    pub call_type_path: TypePath,
}

/// A function of an interface as plain values.
pub struct FunctionModel {
    pub name: &'static str,
    pub sol_name: &'static str,
    pub params: Seq<(&'static str, AbiType)>,
    pub return_type: Seq<AbiType>,
    pub is_view: bool,
    pub call_type_path: Seq<Seq<char>>,
}

impl View for InterfaceFunction {
    type V = FunctionModel;

    open spec fn view(&self) -> FunctionModel {
        FunctionModel {
            name: self.name,
            sol_name: self.sol_name,
            params: self.params@,
            return_type: self.return_type@,
            is_view: self.is_view,
            call_type_path: self.call_type_path@,
        }
    }
}

/// The function `sol_name` of the interface at `interface`, under the type
/// that is named after it with `Call` behind; so far without parameters and
/// without a returned value.
pub open spec fn function_model(
    interface: Seq<Seq<char>>,
    name: &'static str,
    sol_name: &'static str,
    is_view: bool,
) -> FunctionModel {
    FunctionModel {
        name,
        sol_name,
        params: Seq::empty(),
        return_type: Seq::empty(),
        is_view,
        call_type_path: interface.push(sol_name@ + "Call"@),
    }
}

impl FunctionModel {
    /// The function with one more parameter.
    pub open spec fn with_param(self, name: &'static str, ty: AbiType) -> FunctionModel {
        FunctionModel { params: self.params.push((name, ty)), ..self }
    }

    /// The function with one more returned value.
    pub open spec fn returning(self, ty: AbiType) -> FunctionModel {
        FunctionModel { return_type: self.return_type.push(ty), ..self }
    }
}

/// Makes the entry of one function of the interface at `interface_type`, so
/// far without parameters and without a returned value.
pub fn function(
    interface_type: &TypePath,
    name: &'static str,
    sol_name: &'static str,
    is_view: bool,
) -> (r: InterfaceFunction)
    ensures
        r@ == function_model(interface_type@, name, sol_name, is_view),
{
    let item = String::from_str(sol_name).concat("Call");
    InterfaceFunction {
        name,
        sol_name,
        params: Vec::new(),
        return_type: Vec::new(),
        is_view,
        call_type_path: interface_type.join(item),
    }
}

impl InterfaceFunction {
    /// Adds a parameter.
    pub fn with_param(self, name: &'static str, ty: AbiType) -> (r: InterfaceFunction)
        ensures
            r@ == self@.with_param(name, ty),
    {
        let mut r = self;
        r.params.push((name, ty));
        r
    }

    /// Adds a returned value.
    pub fn returning(self, ty: AbiType) -> (r: InterfaceFunction)
        ensures
            r@ == self@.returning(ty),
    {
        let mut r = self;
        r.return_type.push(ty);
        r
    }
}

/// An event of an interface.
#[derive(Debug)]
pub struct InterfaceEvent {
    /// The name of the emitter, in snake case.
    pub name: &'static str,
    /// The name of the event in the interface.
    pub sol_name: &'static str,
    /// The parameters: name and type of each, and whether it is indexed.
    pub params: Vec<(&'static str, AbiType, bool)>,
    /// The path of the type that stands for the event.
    pub event_type_path: TypePath,
}

/// An event of an interface as plain values.
pub struct EventModel {
    pub name: &'static str,
    pub sol_name: &'static str,
    pub params: Seq<(&'static str, AbiType, bool)>,
    pub event_type_path: Seq<Seq<char>>,
}

impl View for InterfaceEvent {
    type V = EventModel;

    open spec fn view(&self) -> EventModel {
        EventModel {
            name: self.name,
            sol_name: self.sol_name,
            params: self.params@,
            event_type_path: self.event_type_path@,
        }
    }
}

/// The event `sol_name` of the interface at `interface`, under the type of its
/// own name; so far without parameters.
pub open spec fn event_model(
    interface: Seq<Seq<char>>,
    name: &'static str,
    sol_name: &'static str,
) -> EventModel {
    EventModel { name, sol_name, params: Seq::empty(), event_type_path: interface.push(sol_name@) }
}

impl EventModel {
    /// The event with one more parameter that is a topic of the record.
    pub open spec fn indexed(self, name: &'static str, ty: AbiType) -> EventModel {
        EventModel { params: self.params.push((name, ty, true)), ..self }
    }

    /// The event with one more parameter that goes into the data of the record.
    pub open spec fn data(self, name: &'static str, ty: AbiType) -> EventModel {
        EventModel { params: self.params.push((name, ty, false)), ..self }
    }
}

/// Makes the entry of one event of the interface at `interface_type`, so far
/// without parameters.
pub fn event(interface_type: &TypePath, name: &'static str, sol_name: &'static str) -> (r:
    InterfaceEvent)
    ensures
        r@ == event_model(interface_type@, name, sol_name),
{
    InterfaceEvent {
        name,
        sol_name,
        params: Vec::new(),
        event_type_path: interface_type.join(String::from_str(sol_name)),
    }
}

impl InterfaceEvent {
    /// Adds a parameter that is a topic of the record.
    pub fn indexed(self, name: &'static str, ty: AbiType) -> (r: InterfaceEvent)
        ensures
            r@ == self@.indexed(name, ty),
    {
        let mut r = self;
        r.params.push((name, ty, true));
        r
    }

    /// Adds a parameter that goes into the data of the record.
    pub fn data(self, name: &'static str, ty: AbiType) -> (r: InterfaceEvent)
        ensures
            r@ == self@.data(name, ty),
    {
        let mut r = self;
        r.params.push((name, ty, false));
        r
    }
}

/// An error of an interface.
#[derive(Debug)]
pub struct InterfaceError {
    /// The name of the constructor, in snake case.
    pub name: &'static str,
    /// The name of the error in the interface.
    pub sol_name: &'static str,
    /// The parameters: name and type of each.
    pub params: Vec<(&'static str, AbiType)>,
    /// The path of the type that stands for the error.
    pub error_type_path: TypePath,
}

/// An error of an interface as plain values.
pub struct ErrorModel {
    pub name: &'static str,
    pub sol_name: &'static str,
    pub params: Seq<(&'static str, AbiType)>,
    pub error_type_path: Seq<Seq<char>>,
}

impl View for InterfaceError {
    type V = ErrorModel;

    open spec fn view(&self) -> ErrorModel {
        ErrorModel {
            name: self.name,
            sol_name: self.sol_name,
            params: self.params@,
            error_type_path: self.error_type_path@,
        }
    }
}

/// The error `sol_name` of the interface at `interface`, under the type of its
/// own name; so far without parameters.
pub open spec fn error_model(
    interface: Seq<Seq<char>>,
    name: &'static str,
    sol_name: &'static str,
) -> ErrorModel {
    ErrorModel { name, sol_name, params: Seq::empty(), error_type_path: interface.push(sol_name@) }
}

impl ErrorModel {
    /// The error with one more parameter.
    pub open spec fn with_param(self, name: &'static str, ty: AbiType) -> ErrorModel {
        ErrorModel { params: self.params.push((name, ty)), ..self }
    }
}

/// Makes the entry of one error of the interface at `interface_type`, so far
/// without parameters.
pub fn error(interface_type: &TypePath, name: &'static str, sol_name: &'static str) -> (r:
    InterfaceError)
    ensures
        r@ == error_model(interface_type@, name, sol_name),
{
    InterfaceError {
        name,
        sol_name,
        params: Vec::new(),
        error_type_path: interface_type.join(String::from_str(sol_name)),
    }
}

impl InterfaceError {
    /// Adds a parameter.
    pub fn with_param(self, name: &'static str, ty: AbiType) -> (r: InterfaceError)
        ensures
            r@ == self@.with_param(name, ty),
    {
        let mut r = self;
        r.params.push((name, ty));
        r
    }
}

/// The entries of a list of functions as plain values.
pub open spec fn functions_view(functions: Seq<InterfaceFunction>) -> Seq<FunctionModel> {
    Seq::new(functions.len(), |i: int| functions[i]@)
}

/// The entries of a list of events as plain values.
pub open spec fn events_view(events: Seq<InterfaceEvent>) -> Seq<EventModel> {
    Seq::new(events.len(), |i: int| events[i]@)
}

/// The entries of a list of errors as plain values.
pub open spec fn errors_view(errors: Seq<InterfaceError>) -> Seq<ErrorModel> {
    Seq::new(errors.len(), |i: int| errors[i]@)
}

/// What an interface holds.
#[derive(Debug)]
pub struct Interface {
    pub functions: Vec<InterfaceFunction>,
    pub events: Vec<InterfaceEvent>,
    pub errors: Vec<InterfaceError>,
}

/// An interface as plain values.
pub struct InterfaceModel {
    pub functions: Seq<FunctionModel>,
    pub events: Seq<EventModel>,
    pub errors: Seq<ErrorModel>,
}

impl View for Interface {
    type V = InterfaceModel;

    open spec fn view(&self) -> InterfaceModel {
        InterfaceModel {
            functions: functions_view(self.functions@),
            events: events_view(self.events@),
            errors: errors_view(self.errors@),
        }
    }
}

/// How a dispatcher treats a function.
#[derive(Clone, Copy, Debug, PartialEq, Eq, Structural)]
pub enum FunctionKind {
    /// Reads state and takes no parameter.
    Metadata,
    /// Reads state and takes parameters.
    View,
    /// Changes state and returns a value.
    Mutate,
    /// Changes state and returns nothing.
    MutateVoid,
}

impl FunctionModel {
    /// How a dispatcher treats the function.
    pub open spec fn kind(self) -> FunctionKind {
        if self.is_view {
            if self.params.len() == 0 {
                FunctionKind::Metadata
            } else {
                FunctionKind::View
            }
        } else if self.return_type.len() == 0 {
            FunctionKind::MutateVoid
        } else {
            FunctionKind::Mutate
        }
    }
}

impl InterfaceFunction {
    /// How a dispatcher treats the function.
    pub fn kind(&self) -> (r: FunctionKind)
        ensures
            r == self@.kind(),
    {
        if self.is_view {
            if self.params.len() == 0 {
                FunctionKind::Metadata
            } else {
                FunctionKind::View
            }
        } else if self.return_type.len() == 0 {
            FunctionKind::MutateVoid
        } else {
            FunctionKind::Mutate
        }
    }
}

/// Why an interface could not be looked up.
#[derive(Clone, Copy, Debug, PartialEq, Eq, Structural)]
pub enum CatalogueError {
    /// The type that should name the interface has no segment.
    NotATypePath,
}

/// Decides whether two strings hold the same characters.
pub fn same_text(a: &str, b: &str) -> (r: bool)
    ensures
        r == (a@ == b@),
{
    let x = String::from_str(a);
    let y = String::from_str(b);
    x == y
}

/// The segments of a path, written with ` :: ` between them.
pub open spec fn joined(segments: Seq<Seq<char>>) -> Seq<char>
    decreases segments.len(),
{
    if segments.len() == 0 {
        Seq::empty()
    } else if segments.len() == 1 {
        segments[0]
    } else {
        joined(segments.drop_last()) + " :: "@ + segments.last()
    }
}

/// The path whose last segment has `suffix` behind it; an empty path stays empty.
pub open spec fn with_suffix(path: Seq<Seq<char>>, suffix: Seq<char>) -> Seq<Seq<char>> {
    if path.len() == 0 {
        path
    } else {
        path.drop_last().push(path.last() + suffix)
    }
}

impl TypePath {
    /// The path as text, with ` :: ` between its segments.
    pub fn to_string(&self) -> (r: String)
        ensures
            r@ == joined(self@),
    {
        let mut out = String::new();
        let mut i: usize = 0;
        while i < self.segments.len()
            invariant
                i <= self.segments@.len(),
                out@ == joined(self@.subrange(0, i as int)),
            decreases self.segments@.len() - i,
        {
            proof {
                assert(self@.subrange(0, i + 1).drop_last() =~= self@.subrange(0, i as int));
                assert(self@.subrange(0, i + 1).last() == self.segments@[i as int]@);
                if i == 0 {
                    assert(out@ + self.segments@[0]@ =~= self.segments@[0]@);
                }
            }
            if i > 0 {
                out.append(" :: ");
            }
            out.append(self.segments[i].as_str());
            i = i + 1;
        }
        assert(self@.subrange(0, self@.len() as int) =~= self@);
        out
    }
}

/// The name of the type at the end of a path.
pub fn try_extract_type_ident(ty: &TypePath) -> (r: Result<String, CatalogueError>)
    ensures
        r is Ok <==> ty@.len() > 0,
        r is Ok ==> r->Ok_0@ == ty@.last(),
        r is Err ==> r->Err_0 == CatalogueError::NotATypePath,
{
    let n = ty.segments.len();
    if n == 0 {
        Err(CatalogueError::NotATypePath)
    } else {
        Ok(ty.segments[n - 1].clone())
    }
}

/// The path of `ty` with `suffix` behind its last segment.
fn suffixed(ty: &TypePath, suffix: &str) -> (r: Result<TypePath, CatalogueError>)
    ensures
        r is Ok <==> ty@.len() > 0,
        r is Ok ==> r->Ok_0@ == with_suffix(ty@, suffix@),
        r is Err ==> r->Err_0 == CatalogueError::NotATypePath,
{
    let n = ty.segments.len();
    if n == 0 {
        return Err(CatalogueError::NotATypePath);
    }
    let mut segments: Vec<String> = Vec::new();
    let mut i: usize = 0;
    while i < n - 1
        invariant
            n == ty.segments@.len(),
            n > 0,
            i <= n - 1,
            segments@.len() == i,
            forall|k: int| 0 <= k < i ==> segments@[k]@ == ty.segments@[k]@,
        decreases n - 1 - i,
    {
        segments.push(ty.segments[i].clone());
        i = i + 1;
    }
    segments.push(ty.segments[n - 1].clone().concat(suffix));
    let r = TypePath { segments };
    assert(r@ =~= with_suffix(ty@, suffix@));
    Ok(r)
}

/// The path of the type that holds the events of an interface: the path of the
/// interface with `Events` behind its name.
pub fn get_event_enum_path(interface_type: &TypePath) -> (r: Result<TypePath, CatalogueError>)
    ensures
        r is Ok <==> interface_type@.len() > 0,
        r is Ok ==> r->Ok_0@ == with_suffix(interface_type@, "Events"@),
        r is Err ==> r->Err_0 == CatalogueError::NotATypePath,
{
    suffixed(interface_type, "Events")
}

/// The path of the type that holds the errors of an interface: inside the
/// interface, its name with `Errors` behind.
pub fn get_error_enum_path(interface_type: &TypePath) -> (r: Result<TypePath, CatalogueError>)
    ensures
        r is Ok <==> interface_type@.len() > 0,
        r is Ok ==> r->Ok_0@ == interface_type@.push(interface_type@.last() + "Errors"@),
        r is Err ==> r->Err_0 == CatalogueError::NotATypePath,
{
    match try_extract_type_ident(interface_type) {
        Ok(ident) => Ok(interface_type.join(ident.concat("Errors"))),
        Err(e) => Err(e),
    }
}

/// An interface without functions, events and errors.
pub open spec fn empty_interface() -> InterfaceModel {
    InterfaceModel { functions: Seq::empty(), events: Seq::empty(), errors: Seq::empty() }
}

/// Whether the catalogue holds an interface of the name `name`.
pub open spec fn in_catalogue(name: Seq<char>) -> bool {
    name == "ITIP20"@ || name == "ITIP20Factory"@ || name == "ITIP20RewardsRegistry"@ || name
        == "ITIP4217Registry"@ || name == "IFeeManager"@ || name == "ITestToken"@ || name
        == "IMetadata"@ || name == "IMiniToken"@ || name == "IErrorTest"@
}

/// What the catalogue holds under the name `name`, for the interface that is
/// named by `i`. An interface that it does not hold is empty.
pub open spec fn catalogue(name: Seq<char>, i: Seq<Seq<char>>) -> InterfaceModel {
    if name == "ITIP20"@ {
        InterfaceModel {
            functions: tip20::itip20_functions(i),
            events: tip20::itip20_events(i),
            errors: tip20::itip20_errors(i),
        }
    } else if name == "ITIP20Factory"@ {
        InterfaceModel {
            functions: registry::tip20_factory::tip20_factory_functions(i),
            events: registry::tip20_factory::tip20_factory_events(i),
            errors: registry::tip20_factory::tip20_factory_errors(i),
        }
    } else if name == "ITIP20RewardsRegistry"@ {
        InterfaceModel {
            functions: registry::tip20_rewards_registry::rewards_registry_functions(i),
            events: registry::tip20_rewards_registry::rewards_registry_events(i),
            errors: registry::tip20_rewards_registry::rewards_registry_errors(i),
        }
    } else if name == "ITIP4217Registry"@ {
        InterfaceModel {
            functions: registry::tip4217_registry::currency_registry_functions(i),
            events: registry::tip4217_registry::currency_registry_events(i),
            errors: registry::tip4217_registry::currency_registry_errors(i),
        }
    } else if name == "IFeeManager"@ {
        InterfaceModel {
            functions: registry::fee_manager::fee_manager_functions(i),
            events: registry::fee_manager::fee_manager_events(i),
            errors: registry::fee_manager::fee_manager_errors(i),
        }
    } else if name == "ITestToken"@ {
        InterfaceModel {
            functions: registry::testing::itest_token_functions(i),
            events: Seq::empty(),
            errors: Seq::empty(),
        }
    } else if name == "IMetadata"@ {
        InterfaceModel {
            functions: registry::testing::imetadata_functions(i),
            events: Seq::empty(),
            errors: Seq::empty(),
        }
    } else if name == "IMiniToken"@ {
        InterfaceModel {
            functions: registry::testing::imini_token_functions(i),
            events: registry::testing::imini_token_events(i),
            errors: Seq::empty(),
        }
    } else if name == "IErrorTest"@ {
        InterfaceModel {
            functions: registry::testing::ierror_test_functions(i),
            events: Seq::empty(),
            errors: registry::testing::ierror_test_errors(i),
        }
    } else {
        empty_interface()
    }
}

/// Decides whether the catalogue holds an interface of the name `name`.
pub fn is_known_interface(name: &str) -> (r: bool)
    ensures
        r == in_catalogue(name@),
{
    same_text(name, "ITIP20") || same_text(name, "ITIP20Factory") || same_text(
        name,
        "ITIP20RewardsRegistry",
    ) || same_text(name, "ITIP4217Registry") || same_text(name, "IFeeManager") || same_text(
        name,
        "ITestToken",
    ) || same_text(name, "IMetadata") || same_text(name, "IMiniToken") || same_text(
        name,
        "IErrorTest",
    )
}

/// Looks the interface `interface_ident` up in the catalogue, for the interface
/// type `interface_type`. An interface that the catalogue does not hold comes
/// back empty.
pub fn get_interface_metadata(interface_ident: &str, interface_type: &TypePath) -> (r: Interface)
    ensures
        r@ == catalogue(interface_ident@, interface_type@),
{
    let i = interface_type;
    if same_text(interface_ident, "ITIP20") {
        Interface {
            functions: tip20::get_itip20_functions(i),
            events: tip20::get_itip20_events(i),
            errors: tip20::get_itip20_errors(i),
        }
    } else if same_text(interface_ident, "ITIP20Factory") {
        Interface {
            functions: registry::tip20_factory::get_functions(i),
            events: registry::tip20_factory::get_events(i),
            errors: registry::tip20_factory::get_errors(i),
        }
    } else if same_text(interface_ident, "ITIP20RewardsRegistry") {
        Interface {
            functions: registry::tip20_rewards_registry::get_functions(i),
            events: registry::tip20_rewards_registry::get_events(i),
            errors: registry::tip20_rewards_registry::get_errors(i),
        }
    } else if same_text(interface_ident, "ITIP4217Registry") {
        Interface {
            functions: registry::tip4217_registry::get_functions(i),
            events: registry::tip4217_registry::get_events(i),
            errors: registry::tip4217_registry::get_errors(i),
        }
    } else if same_text(interface_ident, "IFeeManager") {
        Interface {
            functions: registry::fee_manager::get_functions(i),
            events: registry::fee_manager::get_events(i),
            errors: registry::fee_manager::get_errors(i),
        }
    } else if same_text(interface_ident, "ITestToken") {
        let r = Interface {
            functions: registry::testing::get_itest_token_functions(i),
            events: Vec::new(),
            errors: Vec::new(),
        };
        assert(r@.events =~= Seq::empty() && r@.errors =~= Seq::empty());
        r
    } else if same_text(interface_ident, "IMetadata") {
        let r = Interface {
            functions: registry::testing::get_imetadata_functions(i),
            events: Vec::new(),
            errors: Vec::new(),
        };
        assert(r@.events =~= Seq::empty() && r@.errors =~= Seq::empty());
        r
    } else if same_text(interface_ident, "IMiniToken") {
        let r = Interface {
            functions: registry::testing::get_imini_token_functions(i),
            events: registry::testing::get_imini_token_events(i),
            errors: Vec::new(),
        };
        assert(r@.errors =~= Seq::empty());
        r
    } else if same_text(interface_ident, "IErrorTest") {
        let r = Interface {
            functions: registry::testing::get_ierror_test_functions(i),
            events: Vec::new(),
            errors: registry::testing::get_ierror_test_errors(i),
        };
        assert(r@.events =~= Seq::empty());
        r
    } else {
        let r = Interface { functions: Vec::new(), events: Vec::new(), errors: Vec::new() };
        assert(r@.functions =~= Seq::empty() && r@.events =~= Seq::empty() && r@.errors
            =~= Seq::empty());
        r
    }
}

/// Looks up the interface that `interface_type` names: the catalogue entry of
/// the last segment of the path. There is none for a path without segments.
pub fn parse_interface(interface_type: &TypePath) -> (r: Result<Interface, CatalogueError>)
    ensures
        r is Ok <==> interface_type@.len() > 0,
        r is Ok ==> r->Ok_0@ == catalogue(interface_type@.last(), interface_type@),
        r is Err ==> r->Err_0 == CatalogueError::NotATypePath,
{
    match try_extract_type_ident(interface_type) {
        Ok(ident) => Ok(get_interface_metadata(ident.as_str(), interface_type)),
        Err(e) => Err(e),
    }
}

/// The names of the first `n` types, with commas between them.
pub open spec fn types_joined(types: Seq<AbiType>, n: nat) -> Seq<char>
    decreases n,
{
    if n == 0 {
        Seq::empty()
    } else if n == 1 {
        types[0].canonical_name()
    } else {
        types_joined(types, (n - 1) as nat) + ","@ + types[n - 1].canonical_name()
    }
}

/// The canonical signature of the item `sol_name` with parameters of the given
/// types: the name, and in round brackets the names of the types.
pub open spec fn signature_of(sol_name: Seq<char>, types: Seq<AbiType>) -> Seq<char> {
    sol_name + "("@ + types_joined(types, types.len()) + ")"@
}

/// Writes the canonical signature of the item `sol_name` with parameters of the
/// given types.
pub fn signature(sol_name: &str, types: &Vec<AbiType>) -> (r: String)
    ensures
        r@ == signature_of(sol_name@, types@),
{
    let mut out = String::from_str(sol_name);
    out.append("(");
    let mut i: usize = 0;
    while i < types.len()
        invariant
            i <= types@.len(),
            out@ == sol_name@ + "("@ + types_joined(types@, i as nat),
        decreases types@.len() - i,
    {
        if i > 0 {
            out.append(",");
        }
        out.append(types[i].name());
        proof {
            if i == 0 {
                assert(sol_name@ + "("@ + types_joined(types@, 0) + types@[0].canonical_name()
                    =~= sol_name@ + "("@ + types_joined(types@, 1));
            } else {
                assert(sol_name@ + "("@ + types_joined(types@, i as nat) + ","@
                    + types@[i as int].canonical_name() =~= sol_name@ + "("@ + types_joined(
                    types@,
                    (i + 1) as nat,
                ));
            }
        }
        i = i + 1;
    }
    out.append(")");
    out
}

/// The types of a list of named parameters.
pub open spec fn param_types(params: Seq<(&'static str, AbiType)>) -> Seq<AbiType> {
    Seq::new(params.len(), |i: int| params[i].1)
}

/// The types of the parameters of an event.
pub open spec fn event_param_types(params: Seq<(&'static str, AbiType, bool)>) -> Seq<AbiType> {
    Seq::new(params.len(), |i: int| params[i].1)
}

/// Collects the types of a list of named parameters.
pub fn types_of_params(params: &Vec<(&'static str, AbiType)>) -> (r: Vec<AbiType>)
    ensures
        r@ == param_types(params@),
{
    let mut out: Vec<AbiType> = Vec::new();
    let mut i: usize = 0;
    while i < params.len()
        invariant
            i <= params@.len(),
            out@.len() == i,
            forall|k: int| 0 <= k < i ==> out@[k] == params@[k].1,
        decreases params@.len() - i,
    {
        out.push(params[i].1);
        i = i + 1;
    }
    assert(out@ =~= param_types(params@));
    out
}

/// Collects the types of the parameters of an event.
pub fn types_of_event_params(params: &Vec<(&'static str, AbiType, bool)>) -> (r: Vec<AbiType>)
    ensures
        r@ == event_param_types(params@),
{
    let mut out: Vec<AbiType> = Vec::new();
    let mut i: usize = 0;
    while i < params.len()
        invariant
            i <= params@.len(),
            out@.len() == i,
            forall|k: int| 0 <= k < i ==> out@[k] == params@[k].1,
        decreases params@.len() - i,
    {
        out.push(params[i].1);
        i = i + 1;
    }
    assert(out@ =~= event_param_types(params@));
    out
}

impl FunctionModel {
    /// The canonical signature of the function.
    pub open spec fn signature(self) -> Seq<char> {
        signature_of(self.sol_name@, param_types(self.params))
    }

    /// The selector by which calldata names the function.
    pub open spec fn selector(self) -> Seq<u8> {
        text_selector(self.signature())
    }
}

impl InterfaceFunction {
    /// The canonical signature of the function.
    pub fn signature(&self) -> (r: String)
        ensures
            r@ == self@.signature(),
    {
        let types = types_of_params(&self.params);
        signature(self.sol_name, &types)
    }

    /// The selector by which calldata names the function.
    pub fn selector(&self) -> (r: [u8; 4])
        ensures
            r@ == self@.selector(),
    {
        let text = self.signature();
        selector(text.as_str())
    }
}

impl EventModel {
    /// The canonical signature of the event.
    pub open spec fn signature(self) -> Seq<char> {
        signature_of(self.sol_name@, event_param_types(self.params))
    }

    /// The first topic of every record of the event: the hash of its signature.
    pub open spec fn signature_hash(self) -> Seq<u8> {
        text_digest(self.signature())
    }
}

impl InterfaceEvent {
    /// The canonical signature of the event.
    pub fn signature(&self) -> (r: String)
        ensures
            r@ == self@.signature(),
    {
        let types = types_of_event_params(&self.params);
        signature(self.sol_name, &types)
    }

    /// The first topic of every record of the event: the hash of its signature.
    pub fn signature_hash(&self) -> (r: U256)
        ensures
            r@ == self@.signature_hash(),
    {
        let text = self.signature();
        digest_of_text(text.as_str())
    }
}

impl ErrorModel {
    /// The canonical signature of the error.
    pub open spec fn signature(self) -> Seq<char> {
        signature_of(self.sol_name@, param_types(self.params))
    }

    /// The selector in front of a revert payload of the error.
    pub open spec fn selector(self) -> Seq<u8> {
        text_selector(self.signature())
    }
}

impl InterfaceError {
    /// The canonical signature of the error.
    pub fn signature(&self) -> (r: String)
        ensures
            r@ == self@.signature(),
    {
        let types = types_of_params(&self.params);
        signature(self.sol_name, &types)
    }

    /// The selector in front of a revert payload of the error.
    pub fn selector(&self) -> (r: [u8; 4])
        ensures
            r@ == self@.selector(),
    {
        let text = self.signature();
        selector(text.as_str())
    }
}

} // verus!

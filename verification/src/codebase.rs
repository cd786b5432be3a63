//! What is known of the symbols of a workspace.
//!
//! Class, method and function names are looked up ignoring the case of ASCII
//! letters, as PHP does; property, constant and case names exactly. Where a table
//! lists a name twice, the first entry counts.

use vstd::prelude::*;

use crate::ascii::{equal_ignoring_case, same_bytes, same_ignoring_case};
use crate::domain::Span;
use crate::seqs::{first_where, lemma_first_from, lemma_first_where};

verus! {

/// The kind of a class-like.
#[derive(Clone, Copy, Debug, PartialEq, Eq, Structural)]
pub enum SymbolKind {
    Class,
    Interface,
    Trait,
    Enum,
}

/// A constant of a class-like, its own or inherited.
#[derive(Debug)]
pub struct ClassLikeConstantMetadata {
    pub name: Vec<u8>,
    /// Span of the `NAME = value` item.
    pub span: Span,
}

/// A case of an enum.
#[derive(Debug)]
pub struct EnumCaseMetadata {
    pub name: Vec<u8>,
    pub name_span: Span,
    /// How the analyzer renders the type of the case's value, if it has one.
    pub value_type: Option<Vec<u8>>,
}

/// A property of a class-like, its own or inherited.
#[derive(Debug)]
pub struct PropertyMetadata {
    /// The name with its `$`.
    pub name: Vec<u8>,
    pub is_static: bool,
    /// Span of the name with its `$`.
    pub name_span: Option<Span>,
}

/// A parameter of a function or method.
#[derive(Debug)]
pub struct ParameterMetadata {
    /// The name with its `$`.
    pub name: Vec<u8>,
    /// How the analyzer renders the parameter's type.
    pub type_id: Option<Vec<u8>>,
}

/// A function or a method.
#[derive(Debug)]
pub struct FunctionLikeMetadata {
    /// The name it is called by: fully qualified for a function.
    pub name: Vec<u8>,
    /// The name as it is written at the declaration.
    pub original_name: Vec<u8>,
    pub span: Span,
    pub name_span: Option<Span>,
    /// Whether it is a method declared `static`.
    pub is_static: bool,
    pub parameters: Vec<ParameterMetadata>,
    /// How the analyzer renders the return type.
    pub return_type: Option<Vec<u8>>,
}

/// The class-like that declares a member which another one has.
#[derive(Debug)]
pub struct DeclaringClass {
    pub member: Vec<u8>,
    pub class: Vec<u8>,
}

/// A class, interface, trait or enum.
#[derive(Debug)]
pub struct ClassLikeMetadata {
    /// The fully qualified name.
    pub name: Vec<u8>,
    /// The fully qualified name as it is written at the declaration.
    pub original_name: Vec<u8>,
    pub kind: SymbolKind,
    pub span: Span,
    pub direct_parent_class: Option<Vec<u8>>,
    pub direct_parent_interfaces: Vec<Vec<u8>>,
    pub used_traits: Vec<Vec<u8>>,
    pub constants: Vec<ClassLikeConstantMetadata>,
    pub enum_cases: Vec<EnumCaseMetadata>,
    pub properties: Vec<PropertyMetadata>,
    /// The methods that it declares.
    pub methods: Vec<FunctionLikeMetadata>,
    /// Which class-like declares each method that it has.
    pub declaring_methods: Vec<DeclaringClass>,
    /// Which class-like declares each property that it has.
    pub declaring_properties: Vec<DeclaringClass>,
}

/// A global constant.
#[derive(Debug)]
pub struct ConstantMetadata {
    /// The fully qualified name.
    pub name: Vec<u8>,
    pub span: Span,
}

/// Every symbol of the workspace.
#[derive(Debug)]
pub struct CodebaseMetadata {
    pub class_likes: Vec<ClassLikeMetadata>,
    pub functions: Vec<FunctionLikeMetadata>,
    pub constants: Vec<ConstantMetadata>,
}

// ---- Well-formedness -----------------------------------------------------

/// The name that a constant's span starts with ends at a 32-bit offset.
pub open spec fn constant_fits(constant: ClassLikeConstantMetadata) -> bool {
    constant.span.start.offset + constant.name@.len() <= u32::MAX
}

/// The span of a property's name has room for its `$`.
pub open spec fn property_fits(property: PropertyMetadata) -> bool {
    property.name_span matches Some(span) ==> span.start.offset < u32::MAX
}

impl ClassLikeMetadata {
    pub open spec fn wf(self) -> bool {
        &&& self.span.start.offset <= self.span.end.offset
        &&& forall|i: int|
            0 <= i < self.constants@.len() ==> constant_fits(#[trigger] self.constants@[i])
        &&& forall|i: int|
            0 <= i < self.properties@.len() ==> property_fits(#[trigger] self.properties@[i])
    }

    /// Do the spans of the class-like and of its members fit 32-bit offsets?
    pub fn fits(&self) -> (yes: bool)
        ensures
            yes == self.wf(),
    {
        if self.span.start.offset > self.span.end.offset {
            return false;
        }
        let mut i: usize = 0;
        while i < self.constants.len()
            invariant
                i <= self.constants@.len(),
                forall|k: int| 0 <= k < i ==> constant_fits(#[trigger] self.constants@[k]),
            decreases self.constants.len() - i,
        {
            let constant = &self.constants[i];
            if constant.name.len() > u32::MAX as usize || constant.name.len() as u32 > u32::MAX
                - constant.span.start.offset {
                assert(!constant_fits(self.constants@[i as int]));
                return false;
            }
            i += 1;
        }
        let mut j: usize = 0;
        while j < self.properties.len()
            invariant
                j <= self.properties@.len(),
                forall|k: int| 0 <= k < j ==> property_fits(#[trigger] self.properties@[k]),
            decreases self.properties.len() - j,
        {
            if let Some(span) = self.properties[j].name_span {
                if span.start.offset == u32::MAX {
                    assert(!property_fits(self.properties@[j as int]));
                    return false;
                }
            }
            j += 1;
        }
        true
    }
}

// ---- What the tables say -------------------------------------------------

pub open spec fn class_named(name: Seq<u8>) -> spec_fn(ClassLikeMetadata) -> bool {
    |meta: ClassLikeMetadata| equal_ignoring_case(meta.name@, name)
}

pub open spec fn function_named(name: Seq<u8>) -> spec_fn(FunctionLikeMetadata) -> bool {
    |meta: FunctionLikeMetadata| equal_ignoring_case(meta.name@, name)
}

pub open spec fn constant_named(name: Seq<u8>) -> spec_fn(ConstantMetadata) -> bool {
    |meta: ConstantMetadata| meta.name@ == name
}

pub open spec fn member_constant_named(name: Seq<u8>) -> spec_fn(
    ClassLikeConstantMetadata,
) -> bool {
    |meta: ClassLikeConstantMetadata| meta.name@ == name
}

pub open spec fn case_named(name: Seq<u8>) -> spec_fn(EnumCaseMetadata) -> bool {
    |meta: EnumCaseMetadata| meta.name@ == name
}

pub open spec fn property_named(name: Seq<u8>) -> spec_fn(PropertyMetadata) -> bool {
    |meta: PropertyMetadata| meta.name@ == name
}

pub open spec fn declares_method(name: Seq<u8>) -> spec_fn(DeclaringClass) -> bool {
    |entry: DeclaringClass| equal_ignoring_case(entry.member@, name)
}

pub open spec fn declares_property(name: Seq<u8>) -> spec_fn(DeclaringClass) -> bool {
    |entry: DeclaringClass| entry.member@ == name
}

impl ClassLikeMetadata {
    /// The constant of this name.
    pub open spec fn constant(self, name: Seq<u8>) -> Option<ClassLikeConstantMetadata> {
        first_where(self.constants@, member_constant_named(name))
    }

    /// The case of this name.
    pub open spec fn enum_case(self, name: Seq<u8>) -> Option<EnumCaseMetadata> {
        first_where(self.enum_cases@, case_named(name))
    }

    /// The property of this name, which starts with `$`.
    pub open spec fn property(self, name: Seq<u8>) -> Option<PropertyMetadata> {
        first_where(self.properties@, property_named(name))
    }

    pub fn get_constant(&self, name: &[u8]) -> (found: Option<&ClassLikeConstantMetadata>)
        ensures
            self.constant(name@) == match found {
                Some(meta) => Some(*meta),
                None => None,
            },
    {
        let mut i: usize = 0;
        while i < self.constants.len()
            invariant
                i <= self.constants@.len(),
                forall|k: int|
                    0 <= k < i ==> !member_constant_named(name@)(#[trigger] self.constants@[k]),
            decreases self.constants.len() - i,
        {
            proof {
                lemma_first_where(self.constants@, member_constant_named(name@), i as int);
            }
            if same_bytes(self.constants[i].name.as_slice(), name) {
                return Some(&self.constants[i]);
            }
            i += 1;
        }
        proof {
            lemma_first_where(self.constants@, member_constant_named(name@), i as int);
        }
        None
    }

    pub fn get_enum_case(&self, name: &[u8]) -> (found: Option<&EnumCaseMetadata>)
        ensures
            self.enum_case(name@) == match found {
                Some(meta) => Some(*meta),
                None => None,
            },
    {
        let mut i: usize = 0;
        while i < self.enum_cases.len()
            invariant
                i <= self.enum_cases@.len(),
                forall|k: int| 0 <= k < i ==> !case_named(name@)(#[trigger] self.enum_cases@[k]),
            decreases self.enum_cases.len() - i,
        {
            proof {
                lemma_first_where(self.enum_cases@, case_named(name@), i as int);
            }
            if same_bytes(self.enum_cases[i].name.as_slice(), name) {
                return Some(&self.enum_cases[i]);
            }
            i += 1;
        }
        proof {
            lemma_first_where(self.enum_cases@, case_named(name@), i as int);
        }
        None
    }

    pub fn get_property(&self, name: &[u8]) -> (found: Option<&PropertyMetadata>)
        ensures
            self.property(name@) == match found {
                Some(meta) => Some(*meta),
                None => None,
            },
    {
        let mut i: usize = 0;
        while i < self.properties.len()
            invariant
                i <= self.properties@.len(),
                forall|k: int|
                    0 <= k < i ==> !property_named(name@)(#[trigger] self.properties@[k]),
            decreases self.properties.len() - i,
        {
            proof {
                lemma_first_where(self.properties@, property_named(name@), i as int);
            }
            if same_bytes(self.properties[i].name.as_slice(), name) {
                return Some(&self.properties[i]);
            }
            i += 1;
        }
        proof {
            lemma_first_where(self.properties@, property_named(name@), i as int);
        }
        None
    }
}

/// The first of `functions` called `name`.
fn find_function<'code>(functions: &'code Vec<FunctionLikeMetadata>, name: &[u8]) -> (found: Option<
    &'code FunctionLikeMetadata,
>)
    ensures
        first_where(functions@, function_named(name@)) == match found {
            Some(meta) => Some(*meta),
            None => None,
        },
{
    let mut i: usize = 0;
    while i < functions.len()
        invariant
            i <= functions@.len(),
            forall|k: int| 0 <= k < i ==> !function_named(name@)(#[trigger] functions@[k]),
        decreases functions.len() - i,
    {
        proof {
            lemma_first_where(functions@, function_named(name@), i as int);
        }
        if same_ignoring_case(functions[i].name.as_slice(), name) {
            return Some(&functions[i]);
        }
        i += 1;
    }
    proof {
        lemma_first_where(functions@, function_named(name@), i as int);
    }
    None
}

impl CodebaseMetadata {
    /// Every class-like is well-formed.
    pub open spec fn wf(self) -> bool {
        forall|i: int| 0 <= i < self.class_likes@.len() ==> (#[trigger] self.class_likes@[i]).wf()
    }

    /// A codebase of these symbols, or `None` when a class-like is not
    /// well-formed.
    pub fn new(
        class_likes: Vec<ClassLikeMetadata>,
        functions: Vec<FunctionLikeMetadata>,
        constants: Vec<ConstantMetadata>,
    ) -> (codebase: Option<CodebaseMetadata>)
        ensures
            codebase is Some <==> forall|i: int|
                0 <= i < class_likes@.len() ==> (#[trigger] class_likes@[i]).wf(),
            codebase matches Some(codebase) ==> codebase.wf() && codebase.class_likes
                == class_likes && codebase.functions == functions && codebase.constants
                == constants,
    {
        let mut i: usize = 0;
        while i < class_likes.len()
            invariant
                i <= class_likes@.len(),
                forall|k: int| 0 <= k < i ==> (#[trigger] class_likes@[k]).wf(),
            decreases class_likes.len() - i,
        {
            if !class_likes[i].fits() {
                assert(!class_likes@[i as int].wf());
                return None;
            }
            i += 1;
        }
        Some(CodebaseMetadata { class_likes, functions, constants })
    }

    /// The class-like of this name.
    pub open spec fn class_like(self, name: Seq<u8>) -> Option<ClassLikeMetadata> {
        first_where(self.class_likes@, class_named(name))
    }

    /// The function of this name.
    pub open spec fn function(self, name: Seq<u8>) -> Option<FunctionLikeMetadata> {
        first_where(self.functions@, function_named(name))
    }

    /// The global constant of this name.
    pub open spec fn constant(self, name: Seq<u8>) -> Option<ConstantMetadata> {
        first_where(self.constants@, constant_named(name))
    }

    /// The method of this name that `class` itself declares.
    pub open spec fn method(self, class: Seq<u8>, name: Seq<u8>) -> Option<FunctionLikeMetadata> {
        match self.class_like(class) {
            Some(meta) => first_where(meta.methods@, function_named(name)),
            None => None,
        }
    }

    /// The class-like that declares the method `name` of `class`.
    pub open spec fn declaring_method_class(self, class: Seq<u8>, name: Seq<u8>) -> Option<
        Seq<u8>,
    > {
        match self.class_like(class) {
            Some(meta) => match first_where(meta.declaring_methods@, declares_method(name)) {
                Some(entry) => Some(entry.class@),
                None => None,
            },
            None => None,
        }
    }

    /// The method `name` that `class` has, its own or inherited.
    pub open spec fn declaring_method(self, class: Seq<u8>, name: Seq<u8>) -> Option<
        FunctionLikeMetadata,
    > {
        match self.declaring_method_class(class, name) {
            Some(declaring) => self.method(declaring, name),
            None => self.method(class, name),
        }
    }

    /// The class-like that declares the property `name` of `class`.
    pub open spec fn declaring_property_class(self, class: Seq<u8>, name: Seq<u8>) -> Option<
        Seq<u8>,
    > {
        match self.class_like(class) {
            Some(meta) => match first_where(meta.declaring_properties@, declares_property(name)) {
                Some(entry) => Some(entry.class@),
                None => None,
            },
            None => None,
        }
    }

    /// The property `name` that `class` has, from the class-like that declares it.
    pub open spec fn declaring_property(self, class: Seq<u8>, name: Seq<u8>) -> Option<
        PropertyMetadata,
    > {
        match self.declaring_property_class(class, name) {
            Some(declaring) => match self.class_like(declaring) {
                Some(meta) => meta.property(name),
                None => None,
            },
            None => None,
        }
    }

    /// The case `name` of the enum `class`.
    pub open spec fn enum_case(self, class: Seq<u8>, name: Seq<u8>) -> Option<EnumCaseMetadata> {
        match self.class_like(class) {
            Some(meta) => meta.enum_case(name),
            None => None,
        }
    }

    /// The constant `name` that `class` has, its own or inherited.
    pub open spec fn class_constant(self, class: Seq<u8>, name: Seq<u8>) -> Option<
        ClassLikeConstantMetadata,
    > {
        match self.class_like(class) {
            Some(meta) => meta.constant(name),
            None => None,
        }
    }

    /// Where the class-like, function or constant `name` is declared; they are
    /// tried in that order.
    pub open spec fn symbol_span(self, name: Seq<u8>) -> Option<Span> {
        match self.class_like(name) {
            Some(meta) => Some(meta.span),
            None => match self.function(name) {
                Some(meta) => Some(meta.span),
                None => match self.constant(name) {
                    Some(meta) => Some(meta.span),
                    None => None,
                },
            },
        }
    }

    pub fn get_class_like(&self, name: &[u8]) -> (found: Option<&ClassLikeMetadata>)
        ensures
            self.class_like(name@) == match found {
                Some(meta) => Some(*meta),
                None => None,
            },
            self.wf() ==> (found matches Some(meta) ==> meta.wf()),
    {
        let mut i: usize = 0;
        while i < self.class_likes.len()
            invariant
                i <= self.class_likes@.len(),
                forall|k: int| 0 <= k < i ==> !class_named(name@)(#[trigger] self.class_likes@[k]),
            decreases self.class_likes.len() - i,
        {
            proof {
                lemma_first_where(self.class_likes@, class_named(name@), i as int);
            }
            if same_ignoring_case(self.class_likes[i].name.as_slice(), name) {
                assert(self.wf() ==> self.class_likes@[i as int].wf());
                return Some(&self.class_likes[i]);
            }
            i += 1;
        }
        proof {
            lemma_first_where(self.class_likes@, class_named(name@), i as int);
        }
        None
    }

    pub fn get_function(&self, name: &[u8]) -> (found: Option<&FunctionLikeMetadata>)
        ensures
            self.function(name@) == match found {
                Some(meta) => Some(*meta),
                None => None,
            },
    {
        find_function(&self.functions, name)
    }

    pub fn get_constant(&self, name: &[u8]) -> (found: Option<&ConstantMetadata>)
        ensures
            self.constant(name@) == match found {
                Some(meta) => Some(*meta),
                None => None,
            },
    {
        let mut i: usize = 0;
        while i < self.constants.len()
            invariant
                i <= self.constants@.len(),
                forall|k: int| 0 <= k < i ==> !constant_named(name@)(#[trigger] self.constants@[k]),
            decreases self.constants.len() - i,
        {
            proof {
                lemma_first_where(self.constants@, constant_named(name@), i as int);
            }
            if same_bytes(self.constants[i].name.as_slice(), name) {
                return Some(&self.constants[i]);
            }
            i += 1;
        }
        proof {
            lemma_first_where(self.constants@, constant_named(name@), i as int);
        }
        None
    }

    pub fn get_method(&self, class: &[u8], name: &[u8]) -> (found: Option<&FunctionLikeMetadata>)
        ensures
            self.method(class@, name@) == match found {
                Some(meta) => Some(*meta),
                None => None,
            },
    {
        match self.get_class_like(class) {
            Some(meta) => find_function(&meta.methods, name),
            None => None,
        }
    }

    pub fn get_declaring_method_class(&self, class: &[u8], name: &[u8]) -> (declaring: Option<
        &Vec<u8>,
    >)
        ensures
            self.declaring_method_class(class@, name@) == match declaring {
                Some(declaring) => Some(declaring@),
                None => None,
            },
    {
        let meta = match self.get_class_like(class) {
            Some(meta) => meta,
            None => return None,
        };
        let mut i: usize = 0;
        while i < meta.declaring_methods.len()
            invariant
                i <= meta.declaring_methods@.len(),
                self.class_like(class@) == Some(*meta),
                forall|k: int|
                    0 <= k < i ==> !declares_method(name@)(#[trigger] meta.declaring_methods@[k]),
            decreases meta.declaring_methods.len() - i,
        {
            proof {
                lemma_first_where(meta.declaring_methods@, declares_method(name@), i as int);
            }
            if same_ignoring_case(meta.declaring_methods[i].member.as_slice(), name) {
                return Some(&meta.declaring_methods[i].class);
            }
            i += 1;
        }
        proof {
            lemma_first_where(meta.declaring_methods@, declares_method(name@), i as int);
        }
        None
    }

    pub fn get_declaring_method(&self, class: &[u8], name: &[u8]) -> (found: Option<
        &FunctionLikeMetadata,
    >)
        ensures
            self.declaring_method(class@, name@) == match found {
                Some(meta) => Some(*meta),
                None => None,
            },
    {
        match self.get_declaring_method_class(class, name) {
            Some(declaring) => self.get_method(declaring.as_slice(), name),
            None => self.get_method(class, name),
        }
    }

    pub fn get_declaring_property_class(&self, class: &[u8], name: &[u8]) -> (declaring: Option<
        &Vec<u8>,
    >)
        ensures
            self.declaring_property_class(class@, name@) == match declaring {
                Some(declaring) => Some(declaring@),
                None => None,
            },
    {
        let meta = match self.get_class_like(class) {
            Some(meta) => meta,
            None => return None,
        };
        let mut i: usize = 0;
        while i < meta.declaring_properties.len()
            invariant
                i <= meta.declaring_properties@.len(),
                self.class_like(class@) == Some(*meta),
                forall|k: int|
                    0 <= k < i ==> !declares_property(name@)(
                        #[trigger] meta.declaring_properties@[k],
                    ),
            decreases meta.declaring_properties.len() - i,
        {
            proof {
                lemma_first_where(meta.declaring_properties@, declares_property(name@), i as int);
            }
            if same_bytes(meta.declaring_properties[i].member.as_slice(), name) {
                return Some(&meta.declaring_properties[i].class);
            }
            i += 1;
        }
        proof {
            lemma_first_where(meta.declaring_properties@, declares_property(name@), i as int);
        }
        None
    }

    pub fn get_declaring_property(&self, class: &[u8], name: &[u8]) -> (found: Option<
        &PropertyMetadata,
    >)
        ensures
            self.declaring_property(class@, name@) == match found {
                Some(meta) => Some(*meta),
                None => None,
            },
            self.wf() ==> (found matches Some(meta) ==> property_fits(*meta)),
    {
        match self.get_declaring_property_class(class, name) {
            Some(declaring) => match self.get_class_like(declaring.as_slice()) {
                Some(meta) => {
                    proof {
                        lemma_first_from(meta.properties@, property_named(name@), 0);
                    }
                    meta.get_property(name)
                },
                None => None,
            },
            None => None,
        }
    }

    pub fn get_enum_case(&self, class: &[u8], name: &[u8]) -> (found: Option<&EnumCaseMetadata>)
        ensures
            self.enum_case(class@, name@) == match found {
                Some(meta) => Some(*meta),
                None => None,
            },
    {
        match self.get_class_like(class) {
            Some(meta) => meta.get_enum_case(name),
            None => None,
        }
    }

    pub fn get_class_constant(&self, class: &[u8], name: &[u8]) -> (found: Option<
        &ClassLikeConstantMetadata,
    >)
        ensures
            self.class_constant(class@, name@) == match found {
                Some(meta) => Some(*meta),
                None => None,
            },
            self.wf() ==> (found matches Some(meta) ==> constant_fits(*meta)),
    {
        match self.get_class_like(class) {
            Some(meta) => {
                proof {
                    lemma_first_from(meta.constants@, member_constant_named(name@), 0);
                }
                meta.get_constant(name)
            },
            None => None,
        }
    }

    pub fn span_of(&self, name: &[u8]) -> (span: Option<Span>)
        ensures
            span == self.symbol_span(name@),
    {
        if let Some(meta) = self.get_class_like(name) {
            return Some(meta.span);
        }
        if let Some(meta) = self.get_function(name) {
            return Some(meta.span);
        }
        match self.get_constant(name) {
            Some(meta) => Some(meta.span),
            None => None,
        }
    }
}

} // verus!

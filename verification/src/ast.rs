//! Abstract syntax of Oneil declarations.
//!
//! Every node carries the span of its lexeme and the span of the whitespace
//! that follows it. Each type has a deep view used by the parser's contracts.
use vstd::prelude::*;

use crate::span::Span;

verus! {

// ------------------------------------------------------------------------
// Nodes, identifiers, directories
// ------------------------------------------------------------------------

/// A value together with the span it was parsed from and the span of the
/// whitespace that followed it.
#[derive(Debug)]
pub struct Node<T> {
    pub value: T,
    pub span: Span,
    pub whitespace_span: Span,
}

/// The view of a [`Node`].
pub struct SpecNode<V> {
    pub value: V,
    pub span: Span,
    pub whitespace_span: Span,
}

impl<T: DeepView> DeepView for Node<T> {
    type V = SpecNode<T::V>;

    open spec fn deep_view(&self) -> SpecNode<T::V> {
        SpecNode { value: self.value.deep_view(), span: self.span, whitespace_span: self.whitespace_span }
    }
}

impl<T> Node<T> {
    /// Creates a node.
    pub fn new(value: T, span: Span, whitespace_span: Span) -> (r: Self)
        ensures
            r.value == value,
            r.span == span,
            r.whitespace_span == whitespace_span,
    {
        Node { value, span, whitespace_span }
    }

    /// The wrapped value.
    pub fn value(&self) -> (r: &T)
        ensures
            *r == self.value,
    {
        &self.value
    }

    /// The span of the node's lexeme.
    pub fn span(&self) -> (r: Span)
        ensures
            r == self.span,
    {
        self.span
    }

    /// The span of the whitespace after the node.
    pub fn whitespace_span(&self) -> (r: Span)
        ensures
            r == self.whitespace_span,
    {
        self.whitespace_span
    }

    /// Consumes the node and returns the wrapped value.
    pub fn into_value(self) -> (r: T)
        ensures
            r == self.value,
    {
        self.value
    }
}

/// An identifier (a name written in the source).
#[derive(Debug)]
pub struct Identifier {
    pub text: String,
}

/// A node containing an identifier.
pub type IdentifierNode = Node<Identifier>;

impl DeepView for Identifier {
    type V = Seq<char>;

    open spec fn deep_view(&self) -> Seq<char> {
        self.text@
    }
}

impl Identifier {
    /// Creates an identifier from its text.
    pub fn new(text: String) -> (r: Self)
        ensures
            r.deep_view() == text@,
    {
        Identifier { text }
    }

    /// The identifier's text.
    pub fn as_str(&self) -> (r: &str)
        ensures
            r@ == self.deep_view(),
    {
        self.text.as_str()
    }
}

/// The name of a model.
#[derive(Debug)]
pub struct ModelName(pub String);

/// A node containing a model's name.
pub type ModelNameNode = Node<ModelName>;

impl DeepView for ModelName {
    type V = Seq<char>;

    open spec fn deep_view(&self) -> Seq<char> {
        self.0@
    }
}

impl ModelName {
    /// The model name `value`.
    pub fn new(value: String) -> (r: Self)
        ensures
            r.deep_view() == value@,
    {
        ModelName(value)
    }

    /// The name as text.
    pub fn as_str(&self) -> (r: &str)
        ensures
            r@ == self.deep_view(),
    {
        self.0.as_str()
    }

    /// The name as a string.
    pub fn into_string(self) -> (r: String)
        ensures
            r@ == self.deep_view(),
    {
        self.0
    }
}

impl From<String> for ModelName {
    fn from(value: String) -> (r: Self) {
        ModelName(value)
    }
}

impl vstd::std_specs::convert::FromSpecImpl<String> for ModelName {
    open spec fn obeys_from_spec() -> bool {
        true
    }

    open spec fn from_spec(v: String) -> Self {
        ModelName(v)
    }
}

/// One component of a directory path in a model path.
#[derive(Debug)]
pub enum Directory {
    /// A named directory (`foo/`).
    Name(String),
    /// The current directory (`./`).
    Current,
    /// The parent directory (`../`).
    Parent,
}

/// The view of a [`Directory`].
pub enum SpecDirectory {
    Name(Seq<char>),
    Current,
    Parent,
}

/// A node containing a directory component.
pub type DirectoryNode = Node<Directory>;

impl DeepView for Directory {
    type V = SpecDirectory;

    open spec fn deep_view(&self) -> SpecDirectory {
        match self {
            Directory::Name(s) => SpecDirectory::Name(s@),
            Directory::Current => SpecDirectory::Current,
            Directory::Parent => SpecDirectory::Parent,
        }
    }
}

/// The text by which a directory component is written.
pub open spec fn spec_directory_text(d: SpecDirectory) -> Seq<char> {
    match d {
        SpecDirectory::Name(s) => s,
        SpecDirectory::Current => seq!['.'],
        SpecDirectory::Parent => seq!['.', '.'],
    }
}

impl Directory {
    /// The current directory.
    pub fn current() -> (r: Self)
        ensures
            r.deep_view() == SpecDirectory::Current,
    {
        Directory::Current
    }

    /// The parent directory.
    pub fn parent() -> (r: Self)
        ensures
            r.deep_view() == SpecDirectory::Parent,
    {
        Directory::Parent
    }

    /// The text by which the component is written: its name, `.` or `..`.
    pub fn as_str(&self) -> (r: &str)
        ensures
            r@ == spec_directory_text(self.deep_view()),
    {
        match self {
            Directory::Name(s) => s.as_str(),
            Directory::Current => {
                let r = ".";
                proof {
                    reveal_strlit(".");
                }
                r
            },
            Directory::Parent => {
                let r = "..";
                proof {
                    reveal_strlit("..");
                }
                r
            },
        }
    }
}

// ------------------------------------------------------------------------
// Placeholders for constructs whose grammar lives outside the declaration
// parser: parameter values, notes, parameters and tests.
// ------------------------------------------------------------------------

/// The value of a parameter, kept as its source text.
#[derive(Debug)]
pub struct ParameterValue {
    pub text: String,
}

/// A node containing a parameter value.
pub type ParameterValueNode = Node<ParameterValue>;

/// A documentation note, kept as its source text.
#[derive(Debug)]
pub struct Note {
    pub text: String,
}

/// A node containing a note.
pub type NoteNode = Node<Note>;

/// A parameter declaration: its identifier and its value.
#[derive(Debug)]
pub struct Parameter {
    pub ident: IdentifierNode,
    pub value: ParameterValueNode,
}

/// A node containing a parameter.
pub type ParameterNode = Node<Parameter>;

/// A test declaration, kept as the source text of its condition.
#[derive(Debug)]
pub struct Test {
    pub expr_text: String,
}

/// A node containing a test.
pub type TestNode = Node<Test>;

impl DeepView for ParameterValue {
    type V = Seq<char>;

    open spec fn deep_view(&self) -> Seq<char> {
        self.text@
    }
}

impl DeepView for Note {
    type V = Seq<char>;

    open spec fn deep_view(&self) -> Seq<char> {
        self.text@
    }
}

impl DeepView for Parameter {
    type V = (SpecNode<Seq<char>>, SpecNode<Seq<char>>);

    open spec fn deep_view(&self) -> Self::V {
        (self.ident.deep_view(), self.value.deep_view())
    }
}

impl DeepView for Test {
    type V = Seq<char>;

    open spec fn deep_view(&self) -> Seq<char> {
        self.expr_text@
    }
}

// ------------------------------------------------------------------------
// Declarations
// ------------------------------------------------------------------------

/// An import declaration that specifies a Python module to include.
#[derive(Debug)]
pub struct Import {
    pub path: Node<String>,
}

/// A node containing an import declaration.
pub type ImportNode = Node<Import>;

impl DeepView for Import {
    type V = SpecNode<Seq<char>>;

    open spec fn deep_view(&self) -> SpecNode<Seq<char>> {
        self.path.deep_view()
    }
}

impl Import {
    /// Creates a new import with the given path.
    pub fn new(path: Node<String>) -> (r: Self)
        ensures
            r.path == path,
    {
        Import { path }
    }

    /// The import path.
    pub fn path(&self) -> (r: &Node<String>)
        ensures
            *r == self.path,
    {
        &self.path
    }
}

/// The kind of model being used.
#[derive(Debug, Clone, Copy, PartialEq, Eq, Structural)]
pub enum ModelKind {
    /// The model is used for reference (`ref`).
    Reference,
    /// The model is used as a submodel (`use`).
    Submodel,
}

impl ModelKind {
    /// The reference model kind.
    pub fn reference() -> (r: Self)
        ensures
            r == ModelKind::Reference,
    {
        ModelKind::Reference
    }

    /// The submodel model kind.
    pub fn submodel() -> (r: Self)
        ensures
            r == ModelKind::Submodel,
    {
        ModelKind::Submodel
    }
}

impl DeepView for ModelKind {
    type V = ModelKind;

    open spec fn deep_view(&self) -> ModelKind {
        *self
    }
}

/// The model named in a `use`/`ref` declaration or in a submodel list.
#[derive(Debug)]
pub struct ModelInfo {
    pub top_component: IdentifierNode,
    pub subcomponents: Vec<IdentifierNode>,
    pub alias: Option<IdentifierNode>,
}

/// A node containing model info.
pub type ModelInfoNode = Node<ModelInfo>;

/// The view of a [`ModelInfo`].
pub struct SpecModelInfo {
    pub top_component: SpecNode<Seq<char>>,
    pub subcomponents: Seq<SpecNode<Seq<char>>>,
    pub alias: Option<SpecNode<Seq<char>>>,
}

impl DeepView for ModelInfo {
    type V = SpecModelInfo;

    open spec fn deep_view(&self) -> SpecModelInfo {
        SpecModelInfo {
            top_component: self.top_component.deep_view(),
            subcomponents: self.subcomponents.deep_view(),
            alias: self.alias.deep_view(),
        }
    }
}

/// The name of a model: its last subcomponent, or its top component when it
/// has none.
pub open spec fn spec_model_name(m: SpecModelInfo) -> SpecNode<Seq<char>> {
    if m.subcomponents.len() == 0 {
        m.top_component
    } else {
        m.subcomponents.last()
    }
}

/// The alias of a model: the explicit alias if one was given, otherwise its
/// name.
pub open spec fn spec_model_alias(m: SpecModelInfo) -> SpecNode<Seq<char>> {
    match m.alias {
        Some(a) => a,
        None => spec_model_name(m),
    }
}

impl ModelInfo {
    /// Creates a new model info.
    pub fn new(
        top_component: IdentifierNode,
        subcomponents: Vec<IdentifierNode>,
        alias: Option<IdentifierNode>,
    ) -> (r: Self)
        ensures
            r.top_component == top_component,
            r.subcomponents == subcomponents,
            r.alias == alias,
    {
        ModelInfo { top_component, subcomponents, alias }
    }

    /// The top component of the model.
    pub fn top_component(&self) -> (r: &IdentifierNode)
        ensures
            *r == self.top_component,
    {
        &self.top_component
    }

    /// The subcomponents of the model.
    pub fn subcomponents(&self) -> (r: &[IdentifierNode])
        ensures
            r@ == self.subcomponents@,
    {
        self.subcomponents.as_slice()
    }

    /// The name of the model: the last subcomponent, or the top component if
    /// there are no subcomponents.
    pub fn get_model_name(&self) -> (r: &IdentifierNode)
        ensures
            r.deep_view() == spec_model_name(self.deep_view()),
    {
        let n = self.subcomponents.len();
        if n == 0 {
            &self.top_component
        } else {
            &self.subcomponents[n - 1]
        }
    }

    /// The alias of the model: the given alias if one is provided, otherwise
    /// the model name.
    pub fn get_alias(&self) -> (r: &IdentifierNode)
        ensures
            r.deep_view() == spec_model_alias(self.deep_view()),
    {
        match &self.alias {
            Some(a) => a,
            None => self.get_model_name(),
        }
    }

    /// The explicit alias, if one was written.
    pub fn alias(&self) -> (r: Option<&IdentifierNode>)
        ensures
            r == match self.alias {
                Some(a) => Some(&a),
                None => None::<&IdentifierNode>,
            },
    {
        match &self.alias {
            Some(a) => Some(a),
            None => None,
        }
    }
}

/// A list of submodels in a `with` clause.
#[derive(Debug)]
pub struct SubmodelList {
    pub items: Vec<ModelInfoNode>,
}

/// A node containing a submodel list.
pub type SubmodelListNode = Node<SubmodelList>;

impl DeepView for SubmodelList {
    type V = Seq<SpecNode<SpecModelInfo>>;

    open spec fn deep_view(&self) -> Self::V {
        self.items.deep_view()
    }
}

impl SubmodelList {
    /// Creates a new submodel list.
    pub fn new(items: Vec<ModelInfoNode>) -> (r: Self)
        ensures
            r.items == items,
    {
        SubmodelList { items }
    }

    /// The submodels in order.
    pub fn items(&self) -> (r: &[ModelInfoNode])
        ensures
            r@ == self.items@,
    {
        self.items.as_slice()
    }

    /// The number of submodels.
    pub fn len(&self) -> (r: usize)
        ensures
            r == self.items.len(),
    {
        self.items.len()
    }
}

/// A model usage declaration (`use`/`ref`) that names another model.
#[derive(Debug)]
pub struct UseModel {
    pub directory_path: Vec<DirectoryNode>,
    pub model: ModelInfoNode,
    pub submodel_list: Option<SubmodelListNode>,
    pub model_kind: ModelKind,
}

/// A node containing a model usage declaration.
pub type UseModelNode = Node<UseModel>;

/// The view of a [`UseModel`].
pub struct SpecUseModel {
    pub directory_path: Seq<SpecNode<SpecDirectory>>,
    pub model: SpecNode<SpecModelInfo>,
    pub submodel_list: Option<SpecNode<Seq<SpecNode<SpecModelInfo>>>>,
    pub model_kind: ModelKind,
}

impl DeepView for UseModel {
    type V = SpecUseModel;

    open spec fn deep_view(&self) -> SpecUseModel {
        SpecUseModel {
            directory_path: self.directory_path.deep_view(),
            model: self.model.deep_view(),
            submodel_list: self.submodel_list.deep_view(),
            model_kind: self.model_kind,
        }
    }
}

impl UseModel {
    /// Creates a new model usage declaration.
    pub fn new(
        directory_path: Vec<DirectoryNode>,
        model: ModelInfoNode,
        submodel_list: Option<SubmodelListNode>,
        model_kind: ModelKind,
    ) -> (r: Self)
        ensures
            r.directory_path == directory_path,
            r.model == model,
            r.submodel_list == submodel_list,
            r.model_kind == model_kind,
    {
        UseModel { directory_path, model, submodel_list, model_kind }
    }

    /// The directory path before the model name.
    pub fn directory_path(&self) -> (r: &[DirectoryNode])
        ensures
            r@ == self.directory_path@,
    {
        self.directory_path.as_slice()
    }

    /// The model being used.
    pub fn model_info(&self) -> (r: &ModelInfoNode)
        ensures
            *r == self.model,
    {
        &self.model
    }

    /// The submodels imported with `with`, if any.
    pub fn imported_submodels(&self) -> (r: Option<&SubmodelListNode>)
        ensures
            r == match self.submodel_list {
                Some(l) => Some(&l),
                None => None::<&SubmodelListNode>,
            },
    {
        match &self.submodel_list {
            Some(l) => Some(l),
            None => None,
        }
    }

    /// Whether the model is a reference or a submodel.
    pub fn model_kind(&self) -> (r: ModelKind)
        ensures
            r == self.model_kind,
    {
        self.model_kind
    }
}

/// The target model of a `design [path/to/]<name>` declaration.
#[derive(Debug)]
pub struct DesignTarget {
    pub directory_path: Vec<DirectoryNode>,
    pub target: IdentifierNode,
}

/// A node containing a design target.
pub type DesignTargetNode = Node<DesignTarget>;

/// The view of a [`DesignTarget`].
pub struct SpecDesignTarget {
    pub directory_path: Seq<SpecNode<SpecDirectory>>,
    pub target: SpecNode<Seq<char>>,
}

impl DeepView for DesignTarget {
    type V = SpecDesignTarget;

    open spec fn deep_view(&self) -> SpecDesignTarget {
        SpecDesignTarget {
            directory_path: self.directory_path.deep_view(),
            target: self.target.deep_view(),
        }
    }
}

impl DesignTarget {
    /// Creates a design target with just a model name.
    pub fn new(target: IdentifierNode) -> (r: Self)
        ensures
            r.directory_path@.len() == 0,
            r.target == target,
    {
        DesignTarget { directory_path: Vec::new(), target }
    }

    /// Creates a design target with a directory path.
    pub fn with_path(directory_path: Vec<DirectoryNode>, target: IdentifierNode) -> (r: Self)
        ensures
            r.directory_path == directory_path,
            r.target == target,
    {
        DesignTarget { directory_path, target }
    }

    /// The directory path of the target model.
    pub fn directory_path(&self) -> (r: &[DirectoryNode])
        ensures
            r@ == self.directory_path@,
    {
        self.directory_path.as_slice()
    }

    /// The target model identifier.
    pub fn target(&self) -> (r: &IdentifierNode)
        ensures
            *r == self.target,
    {
        &self.target
    }
}

/// `use design [path/to/]<file> [for <alias>]`.
#[derive(Debug)]
pub struct UseDesign {
    pub directory_path: Vec<DirectoryNode>,
    pub design_file: IdentifierNode,
    pub instance: Option<IdentifierNode>,
}

/// A node containing a `use design` declaration.
pub type UseDesignNode = Node<UseDesign>;

/// The view of a [`UseDesign`].
pub struct SpecUseDesign {
    pub directory_path: Seq<SpecNode<SpecDirectory>>,
    pub design_file: SpecNode<Seq<char>>,
    pub instance: Option<SpecNode<Seq<char>>>,
}

impl DeepView for UseDesign {
    type V = SpecUseDesign;

    open spec fn deep_view(&self) -> SpecUseDesign {
        SpecUseDesign {
            directory_path: self.directory_path.deep_view(),
            design_file: self.design_file.deep_view(),
            instance: self.instance.deep_view(),
        }
    }
}

impl UseDesign {
    /// Creates a `use design` declaration with just a file name.
    pub fn new(design_file: IdentifierNode, instance: Option<IdentifierNode>) -> (r: Self)
        ensures
            r.directory_path@.len() == 0,
            r.design_file == design_file,
            r.instance == instance,
    {
        UseDesign { directory_path: Vec::new(), design_file, instance }
    }

    /// Creates a `use design` declaration with a directory path.
    pub fn with_path(
        directory_path: Vec<DirectoryNode>,
        design_file: IdentifierNode,
        instance: Option<IdentifierNode>,
    ) -> (r: Self)
        ensures
            r.directory_path == directory_path,
            r.design_file == design_file,
            r.instance == instance,
    {
        UseDesign { directory_path, design_file, instance }
    }

    /// The directory path of the design file.
    pub fn directory_path(&self) -> (r: &[DirectoryNode])
        ensures
            r@ == self.directory_path@,
    {
        self.directory_path.as_slice()
    }

    /// The design file name.
    pub fn design_file(&self) -> (r: &IdentifierNode)
        ensures
            *r == self.design_file,
    {
        &self.design_file
    }

    /// The optional `for <alias>` instance selector.
    pub fn instance(&self) -> (r: Option<&IdentifierNode>)
        ensures
            r == match self.instance {
                Some(a) => Some(&a),
                None => None::<&IdentifierNode>,
            },
    {
        match &self.instance {
            Some(a) => Some(a),
            None => None,
        }
    }
}

/// `id = value` or `id.instance = value` line in a design file.
#[derive(Debug)]
pub struct DesignParameter {
    pub ident: IdentifierNode,
    pub instance: Option<IdentifierNode>,
    pub value: ParameterValueNode,
    pub note: Option<NoteNode>,
}

/// A node containing a design parameter.
pub type DesignParameterNode = Node<DesignParameter>;

/// The view of a [`DesignParameter`].
pub struct SpecDesignParameter {
    pub ident: SpecNode<Seq<char>>,
    pub instance: Option<SpecNode<Seq<char>>>,
    pub value: SpecNode<Seq<char>>,
    pub note: Option<SpecNode<Seq<char>>>,
}

impl DeepView for DesignParameter {
    type V = SpecDesignParameter;

    open spec fn deep_view(&self) -> SpecDesignParameter {
        SpecDesignParameter {
            ident: self.ident.deep_view(),
            instance: self.instance.deep_view(),
            value: self.value.deep_view(),
            note: self.note.deep_view(),
        }
    }
}

impl DesignParameter {
    /// Creates a design parameter line without instance scope.
    pub fn new(ident: IdentifierNode, value: ParameterValueNode, note: Option<NoteNode>) -> (r: Self)
        ensures
            r.ident == ident,
            r.instance.is_none(),
            r.value == value,
            r.note == note,
    {
        DesignParameter { ident, instance: None, value, note }
    }

    /// Creates a design parameter line with instance scope.
    pub fn with_instance(
        ident: IdentifierNode,
        instance: IdentifierNode,
        value: ParameterValueNode,
        note: Option<NoteNode>,
    ) -> (r: Self)
        ensures
            r.ident == ident,
            r.instance == Some(instance),
            r.value == value,
            r.note == note,
    {
        DesignParameter { ident, instance: Some(instance), value, note }
    }

    /// The parameter identifier being assigned.
    pub fn ident(&self) -> (r: &IdentifierNode)
        ensures
            *r == self.ident,
    {
        &self.ident
    }

    /// The optional instance scope of the override.
    pub fn instance(&self) -> (r: Option<&IdentifierNode>)
        ensures
            r == match self.instance {
                Some(a) => Some(&a),
                None => None::<&IdentifierNode>,
            },
    {
        match &self.instance {
            Some(a) => Some(a),
            None => None,
        }
    }

    /// The assigned value.
    pub fn value(&self) -> (r: &ParameterValueNode)
        ensures
            *r == self.value,
    {
        &self.value
    }

    /// The optional trailing note.
    pub fn note(&self) -> (r: Option<&NoteNode>)
        ensures
            r == match self.note {
                Some(a) => Some(&a),
                None => None::<&NoteNode>,
            },
    {
        match &self.note {
            Some(a) => Some(a),
            None => None,
        }
    }
}

/// A declaration in an Oneil program.
#[derive(Debug)]
pub enum Decl {
    /// Python import (`import path`).
    Import(ImportNode),
    /// Model usage (`use ...` or `ref ...`).
    UseModel(UseModelNode),
    /// Design target (`design <name>`).
    DesignTarget(DesignTargetNode),
    /// Design application (`use design ...`).
    UseDesign(UseDesignNode),
    /// Parameter assignment in a design file.
    DesignParameter(DesignParameterNode),
    /// Parameter declaration.
    Parameter(ParameterNode),
    /// Test declaration.
    Test(TestNode),
}

/// A node containing a declaration.
pub type DeclNode = Node<Decl>;

/// The view of a [`Decl`].
pub enum SpecDecl {
    Import(SpecNode<SpecNode<Seq<char>>>),
    UseModel(SpecNode<SpecUseModel>),
    DesignTarget(SpecNode<SpecDesignTarget>),
    UseDesign(SpecNode<SpecUseDesign>),
    DesignParameter(SpecNode<SpecDesignParameter>),
    Parameter(SpecNode<(SpecNode<Seq<char>>, SpecNode<Seq<char>>)>),
    Test(SpecNode<Seq<char>>),
}

impl DeepView for Decl {
    type V = SpecDecl;

    open spec fn deep_view(&self) -> SpecDecl {
        match self {
            Decl::Import(n) => SpecDecl::Import(n.deep_view()),
            Decl::UseModel(n) => SpecDecl::UseModel(n.deep_view()),
            Decl::DesignTarget(n) => SpecDecl::DesignTarget(n.deep_view()),
            Decl::UseDesign(n) => SpecDecl::UseDesign(n.deep_view()),
            Decl::DesignParameter(n) => SpecDecl::DesignParameter(n.deep_view()),
            Decl::Parameter(n) => SpecDecl::Parameter(n.deep_view()),
            Decl::Test(n) => SpecDecl::Test(n.deep_view()),
        }
    }
}

impl Decl {
    /// Creates an import declaration.
    pub fn import(path: ImportNode) -> (r: Self)
        ensures
            r == Decl::Import(path),
    {
        Decl::Import(path)
    }

    /// Creates a model usage declaration.
    pub fn use_model(use_model: UseModelNode) -> (r: Self)
        ensures
            r == Decl::UseModel(use_model),
    {
        Decl::UseModel(use_model)
    }

    /// Creates a design target declaration.
    pub fn design_target(node: DesignTargetNode) -> (r: Self)
        ensures
            r == Decl::DesignTarget(node),
    {
        Decl::DesignTarget(node)
    }

    /// Creates a `use design` declaration.
    pub fn use_design(node: UseDesignNode) -> (r: Self)
        ensures
            r == Decl::UseDesign(node),
    {
        Decl::UseDesign(node)
    }

    /// Creates a design parameter line.
    pub fn design_parameter(node: DesignParameterNode) -> (r: Self)
        ensures
            r == Decl::DesignParameter(node),
    {
        Decl::DesignParameter(node)
    }

    /// Creates a parameter declaration.
    pub fn parameter(parameter: ParameterNode) -> (r: Self)
        ensures
            r == Decl::Parameter(parameter),
    {
        Decl::Parameter(parameter)
    }

    /// Creates a test declaration.
    pub fn test(test: TestNode) -> (r: Self)
        ensures
            r == Decl::Test(test),
    {
        Decl::Test(test)
    }
}

// ------------------------------------------------------------------------
// Models and sections
// ------------------------------------------------------------------------

/// A section of a model: a labelled group of declarations.
#[derive(Debug)]
pub struct Section {
    pub label: IdentifierNode,
    pub decls: Vec<DeclNode>,
}

/// A model: top-level declarations followed by sections.
#[derive(Debug)]
pub struct Model {
    pub note: Option<NoteNode>,
    pub decls: Vec<DeclNode>,
    pub sections: Vec<Section>,
}

} // verus!

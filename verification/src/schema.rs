//! The resolved interface schema that generation reads.
//!
//! Every cross reference is an index into one of the tables of [`Schema`].
//! Each executable type has a mathematical model, its view, in which strings
//! are sequences of characters and vectors are sequences; contracts are
//! stated over the models.

use vstd::prelude::*;

verus! {

/// A value type of the interface language.
#[derive(Clone, Copy, Debug, PartialEq, Eq, Structural)]
pub enum Type {
    Bool,
    U8,
    U16,
    U32,
    U64,
    S8,
    S16,
    S32,
    S64,
    Float32,
    Float64,
    Char,
    String,
    /// A reference to the type definition at this index of [`Schema::types`].
    Id(usize),
}

impl View for Type {
    type V = Type;

    open spec fn view(&self) -> Type {
        *self
    }
}

impl DeepView for Type {
    type V = Type;

    open spec fn deep_view(&self) -> Type {
        *self
    }
}

/// A handle to a resource type.
#[derive(Clone, Copy, Debug, PartialEq, Eq, Structural)]
pub enum Handle {
    Own(usize),
    Borrow(usize),
}

/// The scope that a type definition belongs to.
#[derive(Clone, Copy, Debug, PartialEq, Eq, Structural)]
pub enum TypeOwner {
    World(usize),
    Interface(usize),
    Unowned,
}

/// The shape of a type definition. Of the shapes that no binding is
/// generated for, only the kind is kept.
#[derive(Clone, Debug)]
pub enum TypeDefKind {
    Record,
    Resource,
    Handle(Handle),
    Flags,
    Tuple(Vec<Type>),
    Variant,
    Enum,
    Option(Type),
    Result { ok: Option<Type>, err: Option<Type> },
    List(Type),
    Future(Option<Type>),
    Stream { element: Option<Type>, end: Option<Type> },
    Type(Type),
    Unknown,
}

/// The model of a [`TypeDefKind`].
pub enum TypeDefKindModel {
    Record,
    Resource,
    Handle(Handle),
    Flags,
    Tuple(Seq<Type>),
    Variant,
    Enum,
    Option(Type),
    Result { ok: Option<Type>, err: Option<Type> },
    List(Type),
    Future(Option<Type>),
    Stream { element: Option<Type>, end: Option<Type> },
    Type(Type),
    Unknown,
}

impl View for TypeDefKind {
    type V = TypeDefKindModel;

    open spec fn view(&self) -> TypeDefKindModel {
        match *self {
            TypeDefKind::Record => TypeDefKindModel::Record,
            TypeDefKind::Resource => TypeDefKindModel::Resource,
            TypeDefKind::Handle(h) => TypeDefKindModel::Handle(h),
            TypeDefKind::Flags => TypeDefKindModel::Flags,
            TypeDefKind::Tuple(types) => TypeDefKindModel::Tuple(types@),
            TypeDefKind::Variant => TypeDefKindModel::Variant,
            TypeDefKind::Enum => TypeDefKindModel::Enum,
            TypeDefKind::Option(t) => TypeDefKindModel::Option(t),
            TypeDefKind::Result { ok, err } => TypeDefKindModel::Result { ok, err },
            TypeDefKind::List(t) => TypeDefKindModel::List(t),
            TypeDefKind::Future(t) => TypeDefKindModel::Future(t),
            TypeDefKind::Stream { element, end } => TypeDefKindModel::Stream { element, end },
            TypeDefKind::Type(t) => TypeDefKindModel::Type(t),
            TypeDefKind::Unknown => TypeDefKindModel::Unknown,
        }
    }
}

impl DeepView for TypeDefKind {
    type V = TypeDefKindModel;

    open spec fn deep_view(&self) -> TypeDefKindModel {
        self@
    }
}

/// A type definition.
#[derive(Clone, Debug)]
pub struct TypeDef {
    pub name: Option<String>,
    pub owner: TypeOwner,
    pub kind: TypeDefKind,
}

/// The model of a [`TypeDef`].
pub struct TypeDefModel {
    pub name: Option<Seq<char>>,
    pub owner: TypeOwner,
    pub kind: TypeDefKindModel,
}

impl View for TypeDef {
    type V = TypeDefModel;

    open spec fn view(&self) -> TypeDefModel {
        TypeDefModel { name: self.name.deep_view(), owner: self.owner, kind: self.kind@ }
    }
}

impl DeepView for TypeDef {
    type V = TypeDefModel;

    open spec fn deep_view(&self) -> TypeDefModel {
        self@
    }
}

/// A function of an interface or of a world.
#[derive(Clone, Debug)]
pub struct Function {
    pub name: String,
    /// The parameters, in declaration order.
    pub params: Vec<(String, Type)>,
    /// The result types, in declaration order.
    pub results: Vec<Type>,
    /// Whether the lowered return value of the function leaves memory behind
    /// that the caller has to hand back through a post-return entry point.
    /// The classification is made outside this crate, from the shape of the
    /// lowered return value.
    pub needs_post_return: bool,
}

/// The model of a [`Function`].
pub struct FunctionModel {
    pub name: Seq<char>,
    pub params: Seq<(Seq<char>, Type)>,
    pub results: Seq<Type>,
    pub needs_post_return: bool,
}

impl View for Function {
    type V = FunctionModel;

    open spec fn view(&self) -> FunctionModel {
        FunctionModel {
            name: self.name@,
            params: self.params.deep_view(),
            results: self.results@,
            needs_post_return: self.needs_post_return,
        }
    }
}

impl DeepView for Function {
    type V = FunctionModel;

    open spec fn deep_view(&self) -> FunctionModel {
        self@
    }
}

/// A package: a namespace and a name.
#[derive(Clone, Debug)]
pub struct Package {
    pub namespace: String,
    pub name: String,
}

/// The model of a [`Package`].
pub struct PackageModel {
    pub namespace: Seq<char>,
    pub name: Seq<char>,
}

impl View for Package {
    type V = PackageModel;

    open spec fn view(&self) -> PackageModel {
        PackageModel { namespace: self.namespace@, name: self.name@ }
    }
}

impl DeepView for Package {
    type V = PackageModel;

    open spec fn deep_view(&self) -> PackageModel {
        self@
    }
}

/// An interface: a named group of functions that belongs to a package.
#[derive(Clone, Debug)]
pub struct Interface {
    pub name: Option<String>,
    /// The index of the owning package in [`Schema::packages`].
    pub package: Option<usize>,
    /// The functions, in declaration order.
    pub functions: Vec<Function>,
}

/// The model of an [`Interface`].
pub struct InterfaceModel {
    pub name: Option<Seq<char>>,
    pub package: Option<usize>,
    pub functions: Seq<FunctionModel>,
}

impl View for Interface {
    type V = InterfaceModel;

    open spec fn view(&self) -> InterfaceModel {
        InterfaceModel {
            name: self.name.deep_view(),
            package: self.package,
            functions: self.functions.deep_view(),
        }
    }
}

impl DeepView for Interface {
    type V = InterfaceModel;

    open spec fn deep_view(&self) -> InterfaceModel {
        self@
    }
}

/// The key under which a world imports or exports an item.
#[derive(Clone, Debug)]
pub enum WorldKey {
    /// A plain name.
    Name(String),
    /// The interface at this index of [`Schema::interfaces`], which is named
    /// by its package.
    Interface(usize),
}

/// The model of a [`WorldKey`].
pub enum WorldKeyModel {
    Name(Seq<char>),
    Interface(usize),
}

impl View for WorldKey {
    type V = WorldKeyModel;

    open spec fn view(&self) -> WorldKeyModel {
        match *self {
            WorldKey::Name(name) => WorldKeyModel::Name(name@),
            WorldKey::Interface(id) => WorldKeyModel::Interface(id),
        }
    }
}

impl DeepView for WorldKey {
    type V = WorldKeyModel;

    open spec fn deep_view(&self) -> WorldKeyModel {
        self@
    }
}

/// An item that a world imports or exports.
#[derive(Clone, Debug)]
pub enum WorldItem {
    /// The interface at this index of [`Schema::interfaces`].
    Interface(usize),
    Function(Function),
    /// The type at this index of [`Schema::types`].
    Type(usize),
}

/// The model of a [`WorldItem`].
pub enum WorldItemModel {
    Interface(usize),
    Function(FunctionModel),
    Type(usize),
}

impl View for WorldItem {
    type V = WorldItemModel;

    open spec fn view(&self) -> WorldItemModel {
        match *self {
            WorldItem::Interface(id) => WorldItemModel::Interface(id),
            WorldItem::Function(f) => WorldItemModel::Function(f@),
            WorldItem::Type(id) => WorldItemModel::Type(id),
        }
    }
}

impl DeepView for WorldItem {
    type V = WorldItemModel;

    open spec fn deep_view(&self) -> WorldItemModel {
        self@
    }
}

/// A world: the imports and exports of one component.
#[derive(Clone, Debug)]
pub struct World {
    pub name: String,
    /// The imports, in declaration order.
    pub imports: Vec<(WorldKey, WorldItem)>,
    /// The exports, in declaration order.
    pub exports: Vec<(WorldKey, WorldItem)>,
}

/// The model of a [`World`].
pub struct WorldModel {
    pub name: Seq<char>,
    pub imports: Seq<(WorldKeyModel, WorldItemModel)>,
    pub exports: Seq<(WorldKeyModel, WorldItemModel)>,
}

impl View for World {
    type V = WorldModel;

    open spec fn view(&self) -> WorldModel {
        WorldModel {
            name: self.name@,
            imports: self.imports.deep_view(),
            exports: self.exports.deep_view(),
        }
    }
}

impl DeepView for World {
    type V = WorldModel;

    open spec fn deep_view(&self) -> WorldModel {
        self@
    }
}

/// The tables of a resolved schema.
#[derive(Clone, Debug)]
pub struct Schema {
    pub worlds: Vec<World>,
    pub interfaces: Vec<Interface>,
    pub types: Vec<TypeDef>,
    pub packages: Vec<Package>,
}

/// The model of a [`Schema`].
pub struct SchemaModel {
    pub worlds: Seq<WorldModel>,
    pub interfaces: Seq<InterfaceModel>,
    pub types: Seq<TypeDefModel>,
    pub packages: Seq<PackageModel>,
}

impl View for Schema {
    type V = SchemaModel;

    open spec fn view(&self) -> SchemaModel {
        SchemaModel {
            worlds: self.worlds.deep_view(),
            interfaces: self.interfaces.deep_view(),
            types: self.types.deep_view(),
            packages: self.packages.deep_view(),
        }
    }
}

impl DeepView for Schema {
    type V = SchemaModel;

    open spec fn deep_view(&self) -> SchemaModel {
        self@
    }
}

} // verus!

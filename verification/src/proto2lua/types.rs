//! The descriptor model that the `.proto` parser produces, and its
//! mathematical view.
use vstd::prelude::*;

verus! {

/// The number of bytes that the varint encoding of `v` occupies.
pub open spec fn varint_len(v: u32) -> nat {
    if v <= 0x7f {
        1
    } else if v <= 0x3fff {
        2
    } else if v <= 0x1f_ffff {
        3
    } else if v <= 0xfff_ffff {
        4
    } else {
        5
    }
}

pub fn sizeof_varint(v: u32) -> (n: usize)
    ensures
        n == varint_len(v),
{
    if v <= 0x7f {
        1
    } else if v <= 0x3fff {
        2
    } else if v <= 0x1f_ffff {
        3
    } else if v <= 0xfff_ffff {
        4
    } else {
        5
    }
}

#[derive(Debug, Clone, Copy, PartialEq, Eq, Structural)]
pub enum Syntax {
    Proto2,
    Proto3,
}

impl DeepView for Syntax {
    type V = Syntax;

    open spec fn deep_view(&self) -> Syntax {
        *self
    }
}

impl Default for Syntax {
    fn default() -> (r: Syntax)
        ensures
            r == Syntax::Proto2,
    {
        Syntax::Proto2
    }
}

#[derive(Debug, Clone, Copy, PartialEq, Eq, Structural)]
pub enum Frequency {
    Optional,
    Repeated,
    Required,
}

impl DeepView for Frequency {
    type V = Frequency;

    open spec fn deep_view(&self) -> Frequency {
        *self
    }
}

#[derive(Debug, Clone, PartialEq, Eq, Hash)]
pub struct MessageIndex {
    indexes: Vec<usize>,
}

impl DeepView for MessageIndex {
    type V = Seq<usize>;

    closed spec fn deep_view(&self) -> Seq<usize> {
        self.indexes@
    }
}

impl MessageIndex {
    pub fn copy(&self) -> (r: MessageIndex)
        ensures
            r.deep_view() == self.deep_view(),
    {
        let mut v: Vec<usize> = Vec::new();
        let mut i: usize = 0;
        while i < self.indexes.len()
            invariant
                i <= self.indexes@.len(),
                v@ == self.indexes@.subrange(0, i as int),
            decreases self.indexes@.len() - i,
        {
            v.push(self.indexes[i]);
            i += 1;
            assert(v@ =~= self.indexes@.subrange(0, i as int));
        }
        assert(v@ =~= self.indexes@);
        MessageIndex { indexes: v }
    }
}

impl Default for MessageIndex {
    fn default() -> (r: MessageIndex)
        ensures
            r.deep_view() == Seq::<usize>::empty(),
    {
        MessageIndex { indexes: Vec::new() }
    }
}

#[derive(Debug, Clone, PartialEq, Eq, Hash)]
pub struct EnumIndex {
    msg_index: MessageIndex,
    index: usize,
}

impl DeepView for EnumIndex {
    type V = (Seq<usize>, usize);

    closed spec fn deep_view(&self) -> (Seq<usize>, usize) {
        (self.msg_index.deep_view(), self.index)
    }
}

impl EnumIndex {
    pub fn copy(&self) -> (r: EnumIndex)
        ensures
            r.deep_view() == self.deep_view(),
    {
        EnumIndex { msg_index: self.msg_index.copy(), index: self.index }
    }
}

impl Default for EnumIndex {
    fn default() -> (r: EnumIndex)
        ensures
            r.deep_view() == (Seq::<usize>::empty(), 0usize),
    {
        EnumIndex { msg_index: MessageIndex::default(), index: 0 }
    }
}

#[derive(Debug, PartialEq, Eq, Hash)]
pub enum FieldType {
    Int32,
    Int64,
    Uint32,
    Uint64,
    Sint32,
    Sint64,
    Bool,
    Enum(EnumIndex),
    Fixed64,
    Sfixed64,
    Double,
    StringCow,
    BytesCow,
    String_,
    Bytes_,
    Message(MessageIndex),
    MessageOrEnum(String),
    Fixed32,
    Sfixed32,
    Float,
    Map_(Box<FieldType>, Box<FieldType>),
}

/// The mathematical value of a [`FieldType`].
pub enum SpecFieldType {
    Int32,
    Int64,
    Uint32,
    Uint64,
    Sint32,
    Sint64,
    Bool,
    Enum((Seq<usize>, usize)),
    Fixed64,
    Sfixed64,
    Double,
    StringCow,
    BytesCow,
    String_,
    Bytes_,
    Message(Seq<usize>),
    MessageOrEnum(Seq<char>),
    Fixed32,
    Sfixed32,
    Float,
    Map_(Box<SpecFieldType>, Box<SpecFieldType>),
}

pub open spec fn field_type_view(t: FieldType) -> SpecFieldType
    decreases t,
{
    match t {
        FieldType::Int32 => SpecFieldType::Int32,
        FieldType::Int64 => SpecFieldType::Int64,
        FieldType::Uint32 => SpecFieldType::Uint32,
        FieldType::Uint64 => SpecFieldType::Uint64,
        FieldType::Sint32 => SpecFieldType::Sint32,
        FieldType::Sint64 => SpecFieldType::Sint64,
        FieldType::Bool => SpecFieldType::Bool,
        FieldType::Enum(i) => SpecFieldType::Enum(i.deep_view()),
        FieldType::Fixed64 => SpecFieldType::Fixed64,
        FieldType::Sfixed64 => SpecFieldType::Sfixed64,
        FieldType::Double => SpecFieldType::Double,
        FieldType::StringCow => SpecFieldType::StringCow,
        FieldType::BytesCow => SpecFieldType::BytesCow,
        FieldType::String_ => SpecFieldType::String_,
        FieldType::Bytes_ => SpecFieldType::Bytes_,
        FieldType::Message(i) => SpecFieldType::Message(i.deep_view()),
        FieldType::MessageOrEnum(s) => SpecFieldType::MessageOrEnum(s@),
        FieldType::Fixed32 => SpecFieldType::Fixed32,
        FieldType::Sfixed32 => SpecFieldType::Sfixed32,
        FieldType::Float => SpecFieldType::Float,
        FieldType::Map_(k, v) => SpecFieldType::Map_(
            Box::new(field_type_view(*k)),
            Box::new(field_type_view(*v)),
        ),
    }
}

/// A copy of `t`, built node by node.
pub fn copy_field_type(t: &FieldType) -> (r: FieldType)
    ensures
        r.deep_view() == t.deep_view(),
    decreases t,
{
    match t {
        FieldType::Int32 => FieldType::Int32,
        FieldType::Int64 => FieldType::Int64,
        FieldType::Uint32 => FieldType::Uint32,
        FieldType::Uint64 => FieldType::Uint64,
        FieldType::Sint32 => FieldType::Sint32,
        FieldType::Sint64 => FieldType::Sint64,
        FieldType::Bool => FieldType::Bool,
        FieldType::Enum(i) => FieldType::Enum(i.copy()),
        FieldType::Fixed64 => FieldType::Fixed64,
        FieldType::Sfixed64 => FieldType::Sfixed64,
        FieldType::Double => FieldType::Double,
        FieldType::StringCow => FieldType::StringCow,
        FieldType::BytesCow => FieldType::BytesCow,
        FieldType::String_ => FieldType::String_,
        FieldType::Bytes_ => FieldType::Bytes_,
        FieldType::Message(i) => FieldType::Message(i.copy()),
        FieldType::MessageOrEnum(s) => FieldType::MessageOrEnum(s.clone()),
        FieldType::Fixed32 => FieldType::Fixed32,
        FieldType::Sfixed32 => FieldType::Sfixed32,
        FieldType::Float => FieldType::Float,
        FieldType::Map_(k, v) => FieldType::Map_(
            Box::new(copy_field_type(k)),
            Box::new(copy_field_type(v)),
        ),
    }
}

impl Clone for FieldType {
    fn clone(&self) -> (r: FieldType)
        ensures
            r.deep_view() == self.deep_view(),
    {
        copy_field_type(self)
    }
}

impl DeepView for FieldType {
    type V = SpecFieldType;

    open spec fn deep_view(&self) -> SpecFieldType {
        field_type_view(*self)
    }
}

#[derive(Debug, Clone)]
pub struct Field {
    pub name: String,
    pub frequency: Frequency,
    pub typ: FieldType,
    pub number: i32,
    pub default: Option<String>,
    pub packed: Option<bool>,
    pub boxed: bool,
    pub deprecated: bool,
    pub comment: Option<String>,
}

/// The mathematical value of a [`Field`].
pub struct SpecField {
    pub name: Seq<char>,
    pub frequency: Frequency,
    pub typ: SpecFieldType,
    pub number: i32,
    pub default: Option<Seq<char>>,
    pub packed: Option<bool>,
    pub boxed: bool,
    pub deprecated: bool,
    pub comment: Option<Seq<char>>,
}

impl DeepView for Field {
    type V = SpecField;

    open spec fn deep_view(&self) -> SpecField {
        SpecField {
            name: self.name@,
            frequency: self.frequency,
            typ: self.typ.deep_view(),
            number: self.number,
            default: self.default.deep_view(),
            packed: self.packed,
            boxed: self.boxed,
            deprecated: self.deprecated,
            comment: self.comment.deep_view(),
        }
    }
}

#[derive(Debug)]
pub struct Message {
    pub name: String,
    pub fields: Vec<Field>,
    pub oneofs: Vec<OneOf>,
    pub reserved_nums: Option<Vec<i32>>,
    pub reserved_names: Option<Vec<String>>,
    pub imported: bool,
    /// package from imports + nested items
    pub package: String,
    /// nested messages
    pub messages: Vec<Message>,
    /// nested enums
    pub enums: Vec<Enumerator>,
    /// 'package' corresponding to actual generated module
    pub module: String,
    pub path: String,
    pub import: String,
    pub index: MessageIndex,
    pub msg_comment: Option<String>,
}

/// The mathematical value of a [`Message`]; nested messages are kept as
/// values.
pub struct SpecMessage {
    pub name: Seq<char>,
    pub fields: Seq<SpecField>,
    pub oneofs: Seq<SpecOneOf>,
    pub reserved_nums: Option<Seq<i32>>,
    pub reserved_names: Option<Seq<Seq<char>>>,
    pub imported: bool,
    pub package: Seq<char>,
    pub messages: Seq<Message>,
    pub enums: Seq<SpecEnumerator>,
    pub module: Seq<char>,
    pub path: Seq<char>,
    pub import: Seq<char>,
    pub index: Seq<usize>,
    pub msg_comment: Option<Seq<char>>,
}

impl DeepView for Message {
    type V = SpecMessage;

    open spec fn deep_view(&self) -> SpecMessage {
        SpecMessage {
            name: self.name@,
            fields: self.fields.deep_view(),
            oneofs: self.oneofs.deep_view(),
            reserved_nums: match self.reserved_nums {
                Some(v) => Some(v@),
                None => None,
            },
            reserved_names: self.reserved_names.deep_view(),
            imported: self.imported,
            package: self.package@,
            messages: self.messages@,
            enums: self.enums.deep_view(),
            module: self.module@,
            path: self.path@,
            import: self.import@,
            index: self.index.deep_view(),
            msg_comment: self.msg_comment.deep_view(),
        }
    }
}

/// The message that `Message::default()` gives: empty and unnamed.
pub open spec fn empty_message() -> SpecMessage {
    SpecMessage {
        name: Seq::empty(),
        fields: Seq::empty(),
        oneofs: Seq::empty(),
        reserved_nums: None,
        reserved_names: None,
        imported: false,
        package: Seq::empty(),
        messages: Seq::empty(),
        enums: Seq::empty(),
        module: Seq::empty(),
        path: Seq::empty(),
        import: Seq::empty(),
        index: Seq::empty(),
        msg_comment: None,
    }
}

impl Default for Message {
    fn default() -> (r: Message)
        ensures
            r.deep_view() == empty_message(),
    {
        let r = Message {
            name: String::new(),
            fields: Vec::new(),
            oneofs: Vec::new(),
            reserved_nums: None,
            reserved_names: None,
            imported: false,
            package: String::new(),
            messages: Vec::new(),
            enums: Vec::new(),
            module: String::new(),
            path: String::new(),
            import: String::new(),
            index: MessageIndex::default(),
            msg_comment: None,
        };
        assert(r.fields.deep_view() =~= Seq::<SpecField>::empty());
        assert(r.oneofs.deep_view() =~= Seq::<SpecOneOf>::empty());
        assert(r.enums.deep_view() =~= Seq::<SpecEnumerator>::empty());
        r
    }
}

#[derive(Debug, Clone)]
pub struct RpcFunctionDeclaration {
    pub name: String,
    pub arg: String,
    pub ret: String,
}

impl DeepView for RpcFunctionDeclaration {
    type V = (Seq<char>, Seq<char>, Seq<char>);

    open spec fn deep_view(&self) -> (Seq<char>, Seq<char>, Seq<char>) {
        (self.name@, self.arg@, self.ret@)
    }
}

impl Default for RpcFunctionDeclaration {
    fn default() -> (r: RpcFunctionDeclaration)
        ensures
            r.deep_view() == (Seq::<char>::empty(), Seq::<char>::empty(), Seq::<char>::empty()),
    {
        RpcFunctionDeclaration { name: String::new(), arg: String::new(), ret: String::new() }
    }
}

#[derive(Debug, Clone)]
pub struct RpcService {
    pub service_name: String,
    pub functions: Vec<RpcFunctionDeclaration>,
}

impl DeepView for RpcService {
    type V = (Seq<char>, Seq<(Seq<char>, Seq<char>, Seq<char>)>);

    open spec fn deep_view(&self) -> (Seq<char>, Seq<(Seq<char>, Seq<char>, Seq<char>)>) {
        (self.service_name@, self.functions.deep_view())
    }
}

impl Default for RpcService {
    fn default() -> (r: RpcService)
        ensures
            r.deep_view().0 == Seq::<char>::empty(),
            r.deep_view().1 == Seq::<(Seq<char>, Seq<char>, Seq<char>)>::empty(),
    {
        let r = RpcService { service_name: String::new(), functions: Vec::new() };
        assert(r.functions.deep_view() =~= Seq::<(Seq<char>, Seq<char>, Seq<char>)>::empty());
        r
    }
}

#[derive(Debug, Clone)]
pub struct Enumerator {
    pub name: String,
    pub fields: Vec<(String, i32)>,
    pub fully_qualified_fields: Vec<(String, i32)>,
    pub partially_qualified_fields: Vec<(String, i32)>,
    pub imported: bool,
    pub package: String,
    pub module: String,
    pub path: String,
    pub import: String,
    pub index: EnumIndex,
}

/// The mathematical value of an [`Enumerator`].
pub struct SpecEnumerator {
    pub name: Seq<char>,
    pub fields: Seq<(Seq<char>, i32)>,
    pub fully_qualified_fields: Seq<(Seq<char>, i32)>,
    pub partially_qualified_fields: Seq<(Seq<char>, i32)>,
    pub imported: bool,
    pub package: Seq<char>,
    pub module: Seq<char>,
    pub path: Seq<char>,
    pub import: Seq<char>,
    pub index: (Seq<usize>, usize),
}

impl DeepView for Enumerator {
    type V = SpecEnumerator;

    open spec fn deep_view(&self) -> SpecEnumerator {
        SpecEnumerator {
            name: self.name@,
            fields: self.fields.deep_view(),
            fully_qualified_fields: self.fully_qualified_fields.deep_view(),
            partially_qualified_fields: self.partially_qualified_fields.deep_view(),
            imported: self.imported,
            package: self.package@,
            module: self.module@,
            path: self.path@,
            import: self.import@,
            index: self.index.deep_view(),
        }
    }
}

/// The enumerator that `Enumerator::default()` gives: empty and unnamed.
pub open spec fn empty_enumerator() -> SpecEnumerator {
    SpecEnumerator {
        name: Seq::empty(),
        fields: Seq::empty(),
        fully_qualified_fields: Seq::empty(),
        partially_qualified_fields: Seq::empty(),
        imported: false,
        package: Seq::empty(),
        module: Seq::empty(),
        path: Seq::empty(),
        import: Seq::empty(),
        index: (Seq::empty(), 0usize),
    }
}

impl Default for Enumerator {
    fn default() -> (r: Enumerator)
        ensures
            r.deep_view() == empty_enumerator(),
    {
        let r = Enumerator {
            name: String::new(),
            fields: Vec::new(),
            fully_qualified_fields: Vec::new(),
            partially_qualified_fields: Vec::new(),
            imported: false,
            package: String::new(),
            module: String::new(),
            path: String::new(),
            import: String::new(),
            index: EnumIndex::default(),
        };
        assert(r.fields.deep_view() =~= Seq::<(Seq<char>, i32)>::empty());
        assert(r.fully_qualified_fields.deep_view() =~= Seq::<(Seq<char>, i32)>::empty());
        assert(r.partially_qualified_fields.deep_view() =~= Seq::<(Seq<char>, i32)>::empty());
        r
    }
}

#[derive(Debug, Clone)]
pub struct OneOf {
    pub name: String,
    pub fields: Vec<Field>,
    pub package: String,
    pub module: String,
    pub imported: bool,
}

/// The mathematical value of a [`OneOf`].
pub struct SpecOneOf {
    pub name: Seq<char>,
    pub fields: Seq<SpecField>,
    pub package: Seq<char>,
    pub module: Seq<char>,
    pub imported: bool,
}

impl DeepView for OneOf {
    type V = SpecOneOf;

    open spec fn deep_view(&self) -> SpecOneOf {
        SpecOneOf {
            name: self.name@,
            fields: self.fields.deep_view(),
            package: self.package@,
            module: self.module@,
            imported: self.imported,
        }
    }
}

impl Default for OneOf {
    fn default() -> (r: OneOf)
        ensures
            r.deep_view() == (SpecOneOf {
                name: Seq::empty(),
                fields: Seq::empty(),
                package: Seq::empty(),
                module: Seq::empty(),
                imported: false,
            }),
    {
        let r = OneOf {
            name: String::new(),
            fields: Vec::new(),
            package: String::new(),
            module: String::new(),
            imported: false,
        };
        assert(r.fields.deep_view() =~= Seq::<SpecField>::empty());
        r
    }
}

#[derive(Debug)]
pub struct FileDescriptor {
    pub import_paths: Vec<String>,
    pub package: String,
    pub syntax: Syntax,
    pub messages: Vec<Message>,
    pub enums: Vec<Enumerator>,
    pub module: String,
    pub rpc_services: Vec<RpcService>,
    pub owned: bool,
    /// The number of top-level declarations that were not whitespace,
    /// comments or ignored options.
    pub valid_event_count: usize,
}

/// The mathematical value of a [`FileDescriptor`].
pub struct SpecFileDescriptor {
    pub import_paths: Seq<Seq<char>>,
    pub package: Seq<char>,
    pub syntax: Syntax,
    pub messages: Seq<SpecMessage>,
    pub enums: Seq<SpecEnumerator>,
    pub module: Seq<char>,
    pub rpc_services: Seq<(Seq<char>, Seq<(Seq<char>, Seq<char>, Seq<char>)>)>,
    pub owned: bool,
    pub valid_event_count: int,
}

impl DeepView for FileDescriptor {
    type V = SpecFileDescriptor;

    open spec fn deep_view(&self) -> SpecFileDescriptor {
        SpecFileDescriptor {
            import_paths: self.import_paths.deep_view(),
            package: self.package@,
            syntax: self.syntax,
            messages: self.messages.deep_view(),
            enums: self.enums.deep_view(),
            module: self.module@,
            rpc_services: self.rpc_services.deep_view(),
            owned: self.owned,
            valid_event_count: self.valid_event_count as int,
        }
    }
}

/// The descriptor that `FileDescriptor::default()` gives.
pub open spec fn empty_descriptor() -> SpecFileDescriptor {
    SpecFileDescriptor {
        import_paths: Seq::empty(),
        package: Seq::empty(),
        syntax: Syntax::Proto2,
        messages: Seq::empty(),
        enums: Seq::empty(),
        module: Seq::empty(),
        rpc_services: Seq::empty(),
        owned: false,
        valid_event_count: 0,
    }
}

impl Default for FileDescriptor {
    fn default() -> (r: FileDescriptor)
        ensures
            r.deep_view() == empty_descriptor(),
    {
        let r = FileDescriptor {
            import_paths: Vec::new(),
            package: String::new(),
            syntax: Syntax::default(),
            messages: Vec::new(),
            enums: Vec::new(),
            module: String::new(),
            rpc_services: Vec::new(),
            owned: false,
            valid_event_count: 0,
        };
        assert(r.import_paths.deep_view() =~= Seq::<Seq<char>>::empty());
        assert(r.messages.deep_view() =~= Seq::<SpecMessage>::empty());
        assert(r.enums.deep_view() =~= Seq::<SpecEnumerator>::empty());
        assert(r.rpc_services.deep_view() =~= Seq::<
            (Seq<char>, Seq<(Seq<char>, Seq<char>, Seq<char>)>),
        >::empty());
        r
    }
}

} // verus!

use vstd::prelude::*;
use vstd::string::StringSliceAdditionalSpecFns;

use crate::annotations::{
    read_annotation_set_item, read_annotation_set_ref_list, read_annotations_directory_item,
    spec_annotations_directory, spec_offset_list, AnnotationSetItem, AnnotationSetRefList,
    AnnotationsDirectoryItem, AnnotationsDirectoryView,
};
use crate::code::{read_code_item, spec_code_item, CodeItem, CodeItemView};
use crate::class_data::{
    read_class_data, spec_class_data, ClassDataItem, ClassDataItemView, EncodedField, EncodedMethod,
};
use crate::debug_info::{read_debug_info, spec_debug_info, DebugInfoItem};
use crate::encoded_value::{
    read_annotation_item, read_encoded_array, spec_annotation_item, spec_encoded_array,
    AnnotationItem, EncodedArray, EncodedValueView,
};
use crate::error::{DexError, InvalidId, Malformed};
use crate::items::{
    read_class_def_item, read_field_id_item, read_method_handle_item, read_method_id_item,
    read_proto_id_item, read_u16_run, spec_class_def_item, spec_field_id_item,
    spec_method_handle_item, spec_method_id_item, spec_proto_id_item, spec_u16_run, ClassDefItem,
    FieldIdItem, MethodHandleItem, MethodIdItem, ProtoIdItem,
};
use crate::jstring::{read_string_data, spec_string_data, JString, JStringView};
use crate::header::{spec_parse_header, Header, HeaderView};
use crate::map::{spec_find_item, spec_map_list, ItemType, MapItem, MapList};
use crate::order::{compare_bytes, law_lex_antisymmetric, law_lex_equal, law_lex_transitive, lex_order, Order};
use crate::read::{read_u32, spec_read_u32, spec_u32, Endian};

verus! {

/// The value that marks an absent index.
pub const NO_INDEX: u32 = 0xffff_ffff;

/// The byte order that the four bytes of an endian tag announce: `12 34 56 78` is the
/// byte-swapped (big-endian) form, `78 56 34 12` the little-endian one.
pub open spec fn spec_endian_of_tag(t0: u8, t1: u8, t2: u8, t3: u8) -> Option<Endian> {
    if t0 == 0x12 && t1 == 0x34 && t2 == 0x56 && t3 == 0x78 {
        Some(Endian::Big)
    } else if t0 == 0x78 && t1 == 0x56 && t2 == 0x34 && t3 == 0x12 {
        Some(Endian::Little)
    } else {
        None
    }
}

/// The first eight bytes hold the DEX magic `dex\n<version>\0`: the bytes `dex\n`, three
/// version bytes, and a NUL.
pub open spec fn spec_has_magic(b: Seq<u8>) -> bool {
    &&& b.len() >= 8
    &&& b[0] == 0x64u8 && b[1] == 0x65u8 && b[2] == 0x78u8 && b[3] == 0x0au8
    &&& b[7] == 0u8
}

/// What the start of a file says: its header, its map list and its byte order.
pub struct DexInnerView {
    pub header: HeaderView,
    pub map_items: Seq<MapItem>,
    pub endian: Endian,
}

/// Reading the start of a DEX file: a file of at most 44 bytes is refused, then the endian
/// tag at bytes 40..44 must be one of the two constants, then the file must start with the
/// DEX magic, then the header and the map list (at the header's `map_off`) are read in that
/// byte order.
pub open spec fn spec_parse_inner(b: Seq<u8>) -> Result<DexInnerView, DexError> {
    if b.len() <= 44 {
        Err(DexError::MalFormed(Malformed::TooShort))
    } else {
        match spec_endian_of_tag(b[40], b[41], b[42], b[43]) {
            None => Err(DexError::MalFormed(Malformed::BadEndianTag)),
            Some(e) => if !spec_has_magic(b) {
                Err(DexError::MalFormed(Malformed::BadMagic))
            } else {
                match spec_parse_header(b, e) {
                    Err(err) => Err(err),
                    Ok(h) => match spec_map_list(b, h.map_off as int, e) {
                        Err(err) => Err(err),
                        Ok(items) => Ok(DexInnerView { header: h, map_items: items, endian: e }),
                    },
                }
            },
        }
    }
}

/// The header, map list and byte order of a DEX file.
pub struct DexInner {
    header: Header,
    map_list: MapList,
    endian: Endian,
}

impl View for DexInner {
    type V = DexInnerView;

    closed spec fn view(&self) -> DexInnerView {
        DexInnerView { header: self.header@, map_items: self.map_list@, endian: self.endian }
    }
}

impl DexInner {
    /// Reads the header and the map list of the DEX file held in `source`.
    pub fn try_from_bytes(source: &[u8]) -> (r: Result<DexInner, DexError>)
        ensures
            r is Ok <==> spec_parse_inner(source@) is Ok,
            r matches Ok(inner) ==> (spec_parse_inner(source@) == Ok::<DexInnerView, DexError>(inner@)),
            r matches Err(e) ==> (spec_parse_inner(source@) == Err::<DexInnerView, DexError>(e)),
    {
        if source.len() <= 44 {
            return Err(DexError::MalFormed(Malformed::TooShort));
        }
        let (t0, t1, t2, t3) = (source[40], source[41], source[42], source[43]);
        let endian = if t0 == 0x12 && t1 == 0x34 && t2 == 0x56 && t3 == 0x78 {
            Endian::Big
        } else if t0 == 0x78 && t1 == 0x56 && t2 == 0x34 && t3 == 0x12 {
            Endian::Little
        } else {
            return Err(DexError::MalFormed(Malformed::BadEndianTag));
        };
        if !(source[0] == 0x64 && source[1] == 0x65 && source[2] == 0x78 && source[3] == 0x0a
            && source[7] == 0) {
            return Err(DexError::MalFormed(Malformed::BadMagic));
        }
        let header = Header::try_from_bytes(source, endian)?;
        let map_list = MapList::try_from_bytes(source, header.map_off() as u64, endian)?;
        Ok(DexInner { header, map_list, endian })
    }

    /// The header.
    pub fn header(&self) -> (r: &Header)
        ensures
            r@ == self@.header,
    {
        &self.header
    }

    /// The map list.
    pub fn map_list(&self) -> (r: &MapList)
        ensures
            r@ == self@.map_items,
    {
        &self.map_list
    }

    /// The byte order of the file.
    pub fn endian(&self) -> (r: Endian)
        ensures
            r == self@.endian,
    {
        self.endian
    }

    pub fn strings_offset(&self) -> (r: u32)
        ensures
            r == self@.header.string_ids_off,
    {
        self.header.string_ids_off()
    }

    pub fn strings_len(&self) -> (r: u32)
        ensures
            r == self@.header.string_ids_size,
    {
        self.header.string_ids_size()
    }

    pub fn field_ids_len(&self) -> (r: u32)
        ensures
            r == self@.header.field_ids_size,
    {
        self.header.field_ids_size()
    }

    pub fn field_ids_offset(&self) -> (r: u32)
        ensures
            r == self@.header.field_ids_off,
    {
        self.header.field_ids_off()
    }

    pub fn class_defs_offset(&self) -> (r: u32)
        ensures
            r == self@.header.class_defs_off,
    {
        self.header.class_defs_off()
    }

    pub fn class_defs_len(&self) -> (r: u32)
        ensures
            r == self@.header.class_defs_size,
    {
        self.header.class_defs_size()
    }

    pub fn method_ids_offset(&self) -> (r: u32)
        ensures
            r == self@.header.method_ids_off,
    {
        self.header.method_ids_off()
    }

    pub fn method_ids_len(&self) -> (r: u32)
        ensures
            r == self@.header.method_ids_size,
    {
        self.header.method_ids_size()
    }

    pub fn proto_ids_offset(&self) -> (r: u32)
        ensures
            r == self@.header.proto_ids_off,
    {
        self.header.proto_ids_off()
    }

    pub fn proto_ids_len(&self) -> (r: u32)
        ensures
            r == self@.header.proto_ids_size,
    {
        self.header.proto_ids_size()
    }

    pub fn type_ids_offset(&self) -> (r: u32)
        ensures
            r == self@.header.type_ids_off,
    {
        self.header.type_ids_off()
    }

    pub fn type_ids_len(&self) -> (r: u32)
        ensures
            r == self@.header.type_ids_size,
    {
        self.header.type_ids_size()
    }

    /// The offset of the method handles section, if the map list has one.
    fn method_handles_offset(&self) -> (r: Option<u32>)
        ensures
            r == (match spec_find_item(self@.map_items, ItemType::MethodHandleItem) {
                Some(it) => Some(it.offset),
                None => None::<u32>,
            }),
    {
        self.map_list.get_offset(ItemType::MethodHandleItem)
    }

    /// The number of method handles, if the map list has a method handles section.
    fn method_handles_len(&self) -> (r: Option<u32>)
        ensures
            r == (match spec_find_item(self@.map_items, ItemType::MethodHandleItem) {
                Some(it) => Some(it.size),
                None => None::<u32>,
            }),
    {
        self.map_list.get_len(ItemType::MethodHandleItem)
    }
}

/// The bytes of a DEX file together with what its start says.
pub struct DexView {
    pub bytes: Seq<u8>,
    pub header: HeaderView,
    pub map_items: Seq<MapItem>,
    pub endian: Endian,
}

/// Represents a Dex file
pub struct Dex {
    /// The bytes of the file.
    source: Vec<u8>,
    inner: DexInner,
}

impl View for Dex {
    type V = DexView;

    closed spec fn view(&self) -> DexView {
        DexView {
            bytes: self.source@,
            header: self.inner@.header,
            map_items: self.inner@.map_items,
            endian: self.inner@.endian,
        }
    }
}

impl Dex {
    /// Every `Dex` holds the header and map list that its bytes start with.
    #[verifier::type_invariant]
    closed spec fn parsed_from_source(self) -> bool {
        &&& spec_parse_inner(self.source@) == Ok::<DexInnerView, DexError>(self.inner@)
        &&& self.source@.len() <= isize::MAX
    }
}

/// A result with its success value taken by its view.
pub open spec fn result_view<T: View>(r: Result<T, DexError>) -> Result<T::V, DexError> {
    match r {
        Ok(v) => Ok(v@),
        Err(e) => Err(e),
    }
}

/// Reading string number `id` of the string ids section: its `u32` data offset, then the
/// string data there.
pub open spec fn spec_string_at(d: DexView, id: int) -> Result<JStringView, DexError> {
    match spec_read_u32(d.bytes, d.header.string_ids_off + 4 * id, d.endian) {
        Err(e) => Err(e),
        Ok(off) => spec_string_data(d.bytes, off as int),
    }
}

/// The string with id `id`: an error for an id past the string ids section.
pub open spec fn spec_get_string(d: DexView, id: u32) -> Result<JStringView, DexError> {
    if id >= d.header.string_ids_size {
        Err(DexError::InvalidId(InvalidId::StringId(id)))
    } else {
        spec_string_at(d, id as int)
    }
}

/// The source file named by `file_id`, or none for `NO_INDEX`.
pub open spec fn spec_get_source_file(d: DexView, file_id: u32) -> Result<Option<JStringView>, DexError> {
    if file_id == NO_INDEX {
        Ok(None)
    } else {
        match spec_get_string(d, file_id) {
            Err(e) => Err(e),
            Ok(s) => Ok(Some(s)),
        }
    }
}

/// The contents of a type: its id and its descriptor.
pub struct TypeView {
    pub id: u32,
    pub descriptor: JStringView,
}

/// The type with id `type_id`: an error for an id past the type ids section; otherwise the
/// string id stored for it and the string it names.
pub open spec fn spec_get_type(d: DexView, type_id: u32) -> Result<TypeView, DexError> {
    if type_id >= d.header.type_ids_size {
        Err(DexError::InvalidId(InvalidId::TypeId(type_id)))
    } else {
        match spec_read_u32(d.bytes, d.header.type_ids_off + 4 * type_id, d.endian) {
            Err(e) => Err(e),
            Ok(string_id) => match spec_get_string(d, string_id) {
                Err(e) => Err(e),
                Ok(s) => Ok(TypeView { id: type_id, descriptor: s }),
            },
        }
    }
}

/// A type of a DEX file.
pub struct Type {
    id: u32,
    type_descriptor: JString,
}

impl View for Type {
    type V = TypeView;

    closed spec fn view(&self) -> TypeView {
        TypeView { id: self.id, descriptor: self.type_descriptor@ }
    }
}

impl Type {
    /// The type id.
    pub fn id(&self) -> (r: u32)
        ensures
            r == self@.id,
    {
        self.id
    }

    /// The type descriptor, such as `Ljava/lang/Object;`.
    pub fn type_descriptor(&self) -> (r: &JString)
        ensures
            r@ == self@.descriptor,
    {
        &self.type_descriptor
    }
}

impl Dex {
    /// The length of the file in bytes.
    pub fn len(&self) -> (r: usize)
        ensures
            r == self@.bytes.len(),
    {
        self.source.len()
    }

    /// The byte order of the file.
    pub fn get_endian(&self) -> (r: Endian)
        ensures
            r == self@.endian,
    {
        self.inner.endian()
    }

    /// The header of the file.
    pub fn header(&self) -> (r: &Header)
        ensures
            r@ == self@.header,
    {
        self.inner.header()
    }

    /// Reads string number `id` without checking it against the number of strings.
    fn string_at(&self, id: u32) -> (r: Result<JString, DexError>)
        ensures
            result_view(r) == spec_string_at(self@, id as int),
    {
        let off = self.inner.strings_offset() as u64 + 4 * (id as u64);
        let data_off = read_u32(self.source.as_slice(), off, self.get_endian())?;
        read_string_data(self.source.as_slice(), data_off as u64)
    }

    /// Returns the `JString` represented by the given id.
    pub fn get_string(&self, string_id: u32) -> (r: Result<JString, DexError>)
        ensures
            result_view(r) == spec_get_string(self@, string_id),
    {
        if self.inner.strings_len() <= string_id {
            return Err(DexError::InvalidId(InvalidId::StringId(string_id)));
        }
        self.string_at(string_id)
    }

    /// The source file named by `file_id`, or none where it is `NO_INDEX`.
    pub fn get_source_file(&self, file_id: u32) -> (r: Result<Option<JString>, DexError>)
        ensures
            (match (r, spec_get_source_file(self@, file_id)) {
                (Ok(Some(s)), Ok(Some(v))) => s@ == v,
                (Ok(None), Ok(None)) => true,
                (Err(e), Err(e2)) => e == e2,
                _ => false,
            }),
    {
        if file_id == NO_INDEX {
            Ok(None)
        } else {
            Ok(Some(self.get_string(file_id)?))
        }
    }

    /// Returns the `Type` represented by the give type_id.
    pub fn get_type(&self, type_id: u32) -> (r: Result<Type, DexError>)
        ensures
            result_view(r) == spec_get_type(self@, type_id),
    {
        if type_id >= self.inner.type_ids_len() {
            return Err(DexError::InvalidId(InvalidId::TypeId(type_id)));
        }
        let offset = self.inner.type_ids_offset() as u64 + 4 * (type_id as u64);
        let string_id = read_u32(self.source.as_slice(), offset, self.get_endian())?;
        let type_descriptor = self.get_string(string_id)?;
        Ok(Type { id: type_id, type_descriptor })
    }

    /// All strings of the string ids section, in order.
    pub fn strings(&self) -> (r: Vec<Result<JString, DexError>>)
        ensures
            r@.len() == self@.header.string_ids_size,
            forall|i: int|
                0 <= i < r@.len() ==> result_view(#[trigger] r@[i]) == spec_string_at(self@, i),
    {
        let n = self.inner.strings_len();
        let mut out: Vec<Result<JString, DexError>> = Vec::new();
        let mut i: u32 = 0;
        while i < n
            invariant
                i <= n,
                n == self@.header.string_ids_size,
                out@.len() == i,
                forall|j: int| 0 <= j < i ==> result_view(#[trigger] out@[j]) == spec_string_at(self@, j),
            decreases n - i,
        {
            out.push(self.string_at(i));
            i = i + 1;
        }
        out
    }
}

/// The field id item number `field_id`: an error for an id past the field ids section.
pub open spec fn spec_get_field_item(d: DexView, field_id: u64) -> Result<FieldIdItem, DexError> {
    if field_id >= d.header.field_ids_size {
        Err(DexError::InvalidId(InvalidId::FieldId(field_id)))
    } else {
        spec_field_id_item(d.bytes, d.header.field_ids_off + 8 * field_id, d.endian)
    }
}

/// The proto id item number `proto_id`: an error for an id past the proto ids section.
pub open spec fn spec_get_proto_item(d: DexView, proto_id: u64) -> Result<ProtoIdItem, DexError> {
    if proto_id >= d.header.proto_ids_size {
        Err(DexError::InvalidId(InvalidId::ProtoId(proto_id)))
    } else {
        spec_proto_id_item(d.bytes, d.header.proto_ids_off + 12 * proto_id, d.endian)
    }
}

/// The method id item number `method_id`: an error for an id past the method ids section.
pub open spec fn spec_get_method_item(d: DexView, method_id: u64) -> Result<MethodIdItem, DexError> {
    if method_id >= d.header.method_ids_size {
        Err(DexError::InvalidId(InvalidId::MethodId(method_id)))
    } else {
        spec_method_id_item(d.bytes, d.header.method_ids_off + 8 * method_id, d.endian)
    }
}

/// The method handle item number `id`, located through the map list: an error where the
/// map lists no method handles or the id is past them.
pub open spec fn spec_get_method_handle_item(d: DexView, id: u32) -> Result<MethodHandleItem, DexError> {
    match spec_find_item(d.map_items, ItemType::MethodHandleItem) {
        None => Err(DexError::InvalidId(InvalidId::MethodHandleId(id))),
        Some(it) => if id >= it.size {
            Err(DexError::InvalidId(InvalidId::MethodHandleId(id)))
        } else {
            spec_method_handle_item(d.bytes, it.offset + 8 * id, d.endian)
        },
    }
}

/// The types with the given ids, in order; the first id that gives an error stops.
pub open spec fn spec_get_types(d: DexView, ids: Seq<u16>) -> Result<Seq<TypeView>, DexError>
    decreases ids.len(),
{
    if ids.len() == 0 {
        Ok(Seq::empty())
    } else {
        match spec_get_types(d, ids.drop_last()) {
            Err(e) => Err(e),
            Ok(ts) => match spec_get_type(d, ids.last() as u32) {
                Err(e) => Err(e),
                Ok(t) => Ok(ts.push(t)),
            },
        }
    }
}

/// The interfaces listed at byte offset `off`: none for offset 0, else a `u32` count, that
/// many `u16` type ids, and the types they name.
pub open spec fn spec_get_interfaces(d: DexView, off: u32) -> Result<Option<Seq<TypeView>>, DexError> {
    if off == 0 {
        Ok(None)
    } else {
        match spec_read_u32(d.bytes, off as int, d.endian) {
            Err(e) => Err(e),
            Ok(n) => match spec_u16_run(d.bytes, off + 4, n as nat, d.endian) {
                Err(e) => Err(e),
                Ok(ids) => match spec_get_types(d, ids) {
                    Err(e) => Err(e),
                    Ok(ts) => Ok(Some(ts)),
                },
            },
        }
    }
}

/// The views of a sequence of types.
pub open spec fn types_view(s: Seq<Type>) -> Seq<TypeView> {
    s.map_values(|t: Type| t@)
}

/// The class data item at byte offset `off`, or none for offset 0.
pub open spec fn spec_get_class_data(d: DexView, off: u32) -> Result<Option<ClassDataItemView>, DexError> {
    if off == 0 {
        Ok(None)
    } else {
        match spec_class_data(d.bytes, off as int) {
            Err(e) => Err(e),
            Ok(c) => Ok(Some(c)),
        }
    }
}

/// The code item at byte offset `off`, or none for offset 0.
pub open spec fn spec_get_code_item(d: DexView, off: u64) -> Result<Option<CodeItemView>, DexError> {
    if off == 0 {
        Ok(None)
    } else {
        match spec_code_item(d.bytes, off as int, d.endian) {
            Err(e) => Err(e),
            Ok(c) => Ok(Some(c)),
        }
    }
}

/// The annotation set item at byte offset `off`, or none for offset 0.
pub open spec fn spec_get_annotation_set_item(d: DexView, off: u32) -> Result<Option<Seq<u32>>, DexError> {
    if off == 0 {
        Ok(None)
    } else {
        match spec_offset_list(d.bytes, off as int, d.endian) {
            Err(e) => Err(e),
            Ok(s) => Ok(Some(s)),
        }
    }
}

/// The annotations directory item at byte offset `off`, or none for offset 0.
pub open spec fn spec_get_annotations_directory_item(d: DexView, off: u32) -> Result<
    Option<AnnotationsDirectoryView>,
    DexError,
> {
    if off == 0 {
        Ok(None)
    } else {
        match spec_annotations_directory(d.bytes, off as int, d.endian) {
            Err(e) => Err(e),
            Ok(a) => Ok(Some(a)),
        }
    }
}

/// The encoded array at byte offset `off`, or none for offset 0.
pub open spec fn spec_get_static_values(d: DexView, off: u32) -> Result<Option<Seq<EncodedValueView>>, DexError> {
    if off == 0 {
        Ok(None)
    } else {
        match spec_encoded_array(d.bytes, off as int) {
            Err(e) => Err(e),
            Ok(a) => Ok(Some(a)),
        }
    }
}

/// The contents of a field.
pub struct FieldView {
    pub id: u64,
    pub class: u16,
    pub jtype: TypeView,
    pub name: JStringView,
    pub access_flags: u64,
}

/// The field of an encoded field: its field id item, then its name and its type.
pub open spec fn spec_get_field(d: DexView, ef: EncodedField) -> Result<FieldView, DexError> {
    match spec_get_field_item(d, ef.field_id) {
        Err(e) => Err(e),
        Ok(item) => match spec_get_string(d, item.name_idx) {
            Err(e) => Err(e),
            Ok(name) => match spec_get_type(d, item.type_idx as u32) {
                Err(e) => Err(e),
                Ok(jtype) => Ok(
                    FieldView {
                        id: ef.field_id,
                        class: item.class_idx,
                        jtype,
                        name,
                        access_flags: ef.access_flags,
                    },
                ),
            },
        },
    }
}

/// The contents of a method.
pub struct MethodView {
    pub id: u64,
    pub class: u16,
    pub name: JStringView,
    pub shorty: JStringView,
    pub return_type: TypeView,
    pub params: Option<Seq<TypeView>>,
    pub access_flags: u64,
    pub code_off: u64,
    pub code: Option<CodeItemView>,
}

/// The method of an encoded method: its method id item, its proto id item, then its name,
/// shorty descriptor, return type, parameter types and code.
pub open spec fn spec_get_method(d: DexView, em: EncodedMethod) -> Result<MethodView, DexError> {
    match spec_get_method_item(d, em.method_id) {
        Err(e) => Err(e),
        Ok(item) => match spec_get_proto_item(d, item.proto_idx as u64) {
            Err(e) => Err(e),
            Ok(proto) => match spec_get_string(d, item.name_idx) {
                Err(e) => Err(e),
                Ok(name) => match spec_get_string(d, proto.shorty) {
                    Err(e) => Err(e),
                    Ok(shorty) => match spec_get_type(d, proto.return_type) {
                        Err(e) => Err(e),
                        Ok(return_type) => match spec_get_interfaces(d, proto.params_off) {
                            Err(e) => Err(e),
                            Ok(params) => match spec_get_code_item(d, em.code_offset) {
                                Err(e) => Err(e),
                                Ok(code) => Ok(
                                    MethodView {
                                        id: em.method_id,
                                        class: item.class_idx,
                                        name,
                                        shorty,
                                        return_type,
                                        params,
                                        access_flags: em.access_flags,
                                        code_off: em.code_offset,
                                        code,
                                    },
                                ),
                            },
                        },
                    },
                },
            },
        },
    }
}

/// The fields of a list of encoded fields, in order; the first that gives an error stops.
pub open spec fn spec_get_fields(d: DexView, s: Seq<EncodedField>) -> Result<Seq<FieldView>, DexError>
    decreases s.len(),
{
    if s.len() == 0 {
        Ok(Seq::empty())
    } else {
        match spec_get_fields(d, s.drop_last()) {
            Err(e) => Err(e),
            Ok(fs) => match spec_get_field(d, s.last()) {
                Err(e) => Err(e),
                Ok(f) => Ok(fs.push(f)),
            },
        }
    }
}

/// The methods of a list of encoded methods, in order; the first that gives an error stops.
pub open spec fn spec_get_methods(d: DexView, s: Seq<EncodedMethod>) -> Result<Seq<MethodView>, DexError>
    decreases s.len(),
{
    if s.len() == 0 {
        Ok(Seq::empty())
    } else {
        match spec_get_methods(d, s.drop_last()) {
            Err(e) => Err(e),
            Ok(ms) => match spec_get_method(d, s.last()) {
                Err(e) => Err(e),
                Ok(m) => Ok(ms.push(m)),
            },
        }
    }
}

/// The members a class defines: static fields, instance fields, direct methods and
/// virtual methods.
pub struct MembersView {
    pub static_fields: Seq<FieldView>,
    pub instance_fields: Seq<FieldView>,
    pub direct_methods: Seq<MethodView>,
    pub virtual_methods: Seq<MethodView>,
}

/// The members of a class whose class data is at `off`: none at all for offset 0, else
/// the four lists of its class data item resolved in order.
#[verifier::opaque]
pub open spec fn spec_members(d: DexView, off: u32) -> Result<MembersView, DexError> {
    match spec_get_class_data(d, off) {
        Err(e) => Err(e),
        Ok(None) => Ok(
            MembersView {
                static_fields: Seq::empty(),
                instance_fields: Seq::empty(),
                direct_methods: Seq::empty(),
                virtual_methods: Seq::empty(),
            },
        ),
        Ok(Some(cd)) => match spec_get_fields(d, cd.static_fields) {
            Err(e) => Err(e),
            Ok(sf) => match spec_get_fields(d, cd.instance_fields) {
                Err(e) => Err(e),
                Ok(inf) => match spec_get_methods(d, cd.direct_methods) {
                    Err(e) => Err(e),
                    Ok(dm) => match spec_get_methods(d, cd.virtual_methods) {
                        Err(e) => Err(e),
                        Ok(vm) => Ok(
                            MembersView {
                                static_fields: sf,
                                instance_fields: inf,
                                direct_methods: dm,
                                virtual_methods: vm,
                            },
                        ),
                    },
                },
            },
        },
    }
}

/// The contents of a class.
pub struct ClassView {
    /// The class definition it was built from.
    pub def: ClassDefItem,
    pub jtype: TypeView,
    pub super_class: Option<u32>,
    pub interfaces: Option<Seq<TypeView>>,
    pub source_file: Option<JStringView>,
    pub members: MembersView,
    pub annotations: Option<AnnotationsDirectoryView>,
    pub static_values: Option<Seq<EncodedValueView>>,
}

/// The class built from a class definition: its type, its interfaces, its source file, its
/// members, its annotations directory and the values of its static fields, read in that
/// order; the superclass is absent where the definition holds `NO_INDEX`.
pub open spec fn spec_class(d: DexView, def: ClassDefItem) -> Result<ClassView, DexError> {
    match spec_get_type(d, def.class_idx) {
        Err(e) => Err(e),
        Ok(jtype) => match spec_get_interfaces(d, def.interfaces_off) {
            Err(e) => Err(e),
            Ok(interfaces) => match spec_get_source_file(d, def.source_file_idx) {
                Err(e) => Err(e),
                Ok(source_file) => match spec_members(d, def.class_data_off) {
                    Err(e) => Err(e),
                    Ok(members) => match spec_get_annotations_directory_item(d, def.annotations_off) {
                        Err(e) => Err(e),
                        Ok(annotations) => match spec_get_static_values(d, def.static_values_off) {
                            Err(e) => Err(e),
                            Ok(static_values) => Ok(
                                ClassView {
                                    def,
                                    jtype,
                                    super_class: if def.superclass_idx == NO_INDEX {
                                        None
                                    } else {
                                        Some(def.superclass_idx)
                                    },
                                    interfaces,
                                    source_file,
                                    members,
                                    annotations,
                                    static_values,
                                },
                            ),
                        },
                    },
                },
            },
        },
    }
}

/// The class definition number `i` of the class defs section.
pub open spec fn spec_class_def_at(d: DexView, i: int) -> Result<ClassDefItem, DexError> {
    spec_class_def_item(d.bytes, d.header.class_defs_off + 32 * i, d.endian)
}

/// The class of class definition number `i`.
pub open spec fn spec_class_at(d: DexView, i: int) -> Result<ClassView, DexError> {
    match spec_class_def_at(d, i) {
        Err(e) => Err(e),
        Ok(def) => spec_class(d, def),
    }
}

/// Scanning the class definitions from number `i` on for the first whose class is
/// `type_id`; a definition that cannot be read stops the scan with its error.
pub open spec fn spec_find_class_from(d: DexView, type_id: u32, i: int) -> Result<Option<ClassView>, DexError>
    decreases d.header.class_defs_size - i,
{
    if i >= d.header.class_defs_size {
        Ok(None)
    } else {
        match spec_class_def_at(d, i) {
            Err(e) => Err(e),
            Ok(def) => if def.class_idx == type_id {
                match spec_class(d, def) {
                    Err(e) => Err(e),
                    Ok(c) => Ok(Some(c)),
                }
            } else {
                spec_find_class_from(d, type_id, i + 1)
            },
        }
    }
}

/// A class of a DEX file.
pub struct Class {
    def: ClassDefItem,
    jtype: Type,
    super_class: Option<u32>,
    interfaces: Option<Vec<Type>>,
    source_file: Option<JString>,
    static_fields: Vec<Field>,
    instance_fields: Vec<Field>,
    direct_methods: Vec<Method>,
    virtual_methods: Vec<Method>,
    annotations: Option<AnnotationsDirectoryItem>,
    static_values: Option<EncodedArray>,
}

impl View for Class {
    type V = ClassView;

    closed spec fn view(&self) -> ClassView {
        ClassView {
            def: self.def,
            jtype: self.jtype@,
            super_class: self.super_class,
            interfaces: match self.interfaces {
                Some(v) => Some(types_view(v@)),
                None => None,
            },
            source_file: match self.source_file {
                Some(s) => Some(s@),
                None => None,
            },
            members: MembersView {
                static_fields: fields_view(self.static_fields@),
                instance_fields: fields_view(self.instance_fields@),
                direct_methods: methods_view(self.direct_methods@),
                virtual_methods: methods_view(self.virtual_methods@),
            },
            annotations: match self.annotations {
                Some(a) => Some(a@),
                None => None,
            },
            static_values: match self.static_values {
                Some(a) => Some(a@),
                None => None,
            },
        }
    }
}

impl Class {
    /// The type id of the class.
    pub fn id(&self) -> (r: u32)
        ensures
            r == self@.def.class_idx,
    {
        self.def.class_idx
    }

    /// The type of the class.
    pub fn jtype(&self) -> (r: &Type)
        ensures
            r@ == self@.jtype,
    {
        &self.jtype
    }

    /// The access flags of the class.
    pub fn access_flags(&self) -> (r: u32)
        ensures
            r == self@.def.access_flags,
    {
        self.def.access_flags
    }

    /// The type id of the superclass, if the class has one.
    pub fn super_class(&self) -> (r: Option<u32>)
        ensures
            r == self@.super_class,
    {
        self.super_class
    }

    /// The interfaces that the class implements, if it lists any.
    pub fn interfaces(&self) -> (r: Option<&Vec<Type>>)
        ensures
            (match (r, self@.interfaces) {
                (Some(v), Some(s)) => types_view(v@) == s,
                (None, None) => true,
                _ => false,
            }),
    {
        match &self.interfaces {
            Some(v) => Some(v),
            None => None,
        }
    }

    /// The name of the source file of the class, if the file records it.
    pub fn source_file(&self) -> (r: Option<&JString>)
        ensures
            (match (r, self@.source_file) {
                (Some(s), Some(v)) => s@ == v,
                (None, None) => true,
                _ => false,
            }),
    {
        match &self.source_file {
            Some(s) => Some(s),
            None => None,
        }
    }

    /// The class definition the class was built from.
    pub fn class_def(&self) -> (r: ClassDefItem)
        ensures
            r == self@.def,
    {
        self.def
    }

    /// The static fields of the class.
    pub fn static_fields(&self) -> (r: &Vec<Field>)
        ensures
            fields_view(r@) == self@.members.static_fields,
    {
        &self.static_fields
    }

    /// The instance fields of the class.
    pub fn instance_fields(&self) -> (r: &Vec<Field>)
        ensures
            fields_view(r@) == self@.members.instance_fields,
    {
        &self.instance_fields
    }

    /// The direct methods of the class.
    pub fn direct_methods(&self) -> (r: &Vec<Method>)
        ensures
            methods_view(r@) == self@.members.direct_methods,
    {
        &self.direct_methods
    }

    /// The virtual methods of the class.
    pub fn virtual_methods(&self) -> (r: &Vec<Method>)
        ensures
            methods_view(r@) == self@.members.virtual_methods,
    {
        &self.virtual_methods
    }

    /// The initial values of the static fields of the class, if it lists any.
    pub fn static_values(&self) -> (r: Option<&EncodedArray>)
        ensures
            (match (r, self@.static_values) {
                (Some(a), Some(v)) => a@ == v,
                (None, None) => true,
                _ => false,
            }),
    {
        match &self.static_values {
            Some(a) => Some(a),
            None => None,
        }
    }

    /// The annotations directory of the class, if it has one.
    pub fn annotations(&self) -> (r: Option<&AnnotationsDirectoryItem>)
        ensures
            (match (r, self@.annotations) {
                (Some(a), Some(v)) => a@ == v,
                (None, None) => true,
                _ => false,
            }),
    {
        match &self.annotations {
            Some(a) => Some(a),
            None => None,
        }
    }
}

/// The views of a sequence of fields.
pub open spec fn fields_view(s: Seq<Field>) -> Seq<FieldView> {
    s.map_values(|f: Field| f@)
}

/// The views of a sequence of methods.
pub open spec fn methods_view(s: Seq<Method>) -> Seq<MethodView> {
    s.map_values(|m: Method| m@)
}

/// A field of a DEX file.
pub struct Field {
    id: u64,
    class: u16,
    jtype: Type,
    name: JString,
    access_flags: u64,
}

impl View for Field {
    type V = FieldView;

    closed spec fn view(&self) -> FieldView {
        FieldView {
            id: self.id,
            class: self.class,
            jtype: self.jtype@,
            name: self.name@,
            access_flags: self.access_flags,
        }
    }
}

impl Field {
    /// The field id.
    pub fn id(&self) -> (r: u64)
        ensures
            r == self@.id,
    {
        self.id
    }

    /// The type id of the class that defines the field.
    pub fn class(&self) -> (r: u16)
        ensures
            r == self@.class,
    {
        self.class
    }

    /// The type of the field.
    pub fn jtype(&self) -> (r: &Type)
        ensures
            r@ == self@.jtype,
    {
        &self.jtype
    }

    /// The name of the field.
    pub fn name(&self) -> (r: &JString)
        ensures
            r@ == self@.name,
    {
        &self.name
    }

    /// The access flags of the field.
    pub fn access_flags(&self) -> (r: u64)
        ensures
            r == self@.access_flags,
    {
        self.access_flags
    }
}

/// A method of a DEX file.
pub struct Method {
    id: u64,
    class: u16,
    name: JString,
    shorty: JString,
    return_type: Type,
    params: Option<Vec<Type>>,
    access_flags: u64,
    code_off: u64,
    code: Option<CodeItem>,
}

impl View for Method {
    type V = MethodView;

    closed spec fn view(&self) -> MethodView {
        MethodView {
            id: self.id,
            class: self.class,
            name: self.name@,
            shorty: self.shorty@,
            return_type: self.return_type@,
            params: match self.params {
                Some(v) => Some(types_view(v@)),
                None => None,
            },
            access_flags: self.access_flags,
            code_off: self.code_off,
            code: match self.code {
                Some(c) => Some(c@),
                None => None,
            },
        }
    }
}

impl Method {
    /// The method id.
    pub fn id(&self) -> (r: u64)
        ensures
            r == self@.id,
    {
        self.id
    }

    /// The type id of the class that defines the method.
    pub fn class(&self) -> (r: u16)
        ensures
            r == self@.class,
    {
        self.class
    }

    /// The name of the method.
    pub fn name(&self) -> (r: &JString)
        ensures
            r@ == self@.name,
    {
        &self.name
    }

    /// The shorty descriptor of the method's prototype.
    pub fn shorty(&self) -> (r: &JString)
        ensures
            r@ == self@.shorty,
    {
        &self.shorty
    }

    /// The return type of the method.
    pub fn return_type(&self) -> (r: &Type)
        ensures
            r@ == self@.return_type,
    {
        &self.return_type
    }

    /// The parameter types of the method, if it has a parameter list.
    pub fn params(&self) -> (r: Option<&Vec<Type>>)
        ensures
            (match (r, self@.params) {
                (Some(v), Some(s)) => types_view(v@) == s,
                (None, None) => true,
                _ => false,
            }),
    {
        match &self.params {
            Some(v) => Some(v),
            None => None,
        }
    }

    /// The access flags of the method.
    pub fn access_flags(&self) -> (r: u64)
        ensures
            r == self@.access_flags,
    {
        self.access_flags
    }

    /// The offset of the method's code item, or 0 for a method without code.
    pub fn code_off(&self) -> (r: u64)
        ensures
            r == self@.code_off,
    {
        self.code_off
    }

    /// The code of the method, if it has any.
    pub fn code(&self) -> (r: Option<&CodeItem>)
        ensures
            (match (r, self@.code) {
                (Some(c), Some(v)) => c@ == v,
                (None, None) => true,
                _ => false,
            }),
    {
        match &self.code {
            Some(c) => Some(c),
            None => None,
        }
    }
}

impl Dex {
    /// Returns the field id item with the given id.
    pub fn get_field_item(&self, field_id: u64) -> (r: Result<FieldIdItem, DexError>)
        ensures
            r == spec_get_field_item(self@, field_id),
    {
        if field_id >= self.inner.field_ids_len() as u64 {
            return Err(DexError::InvalidId(InvalidId::FieldId(field_id)));
        }
        let offset = self.inner.field_ids_offset() as u64 + field_id * 8;
        read_field_id_item(self.source.as_slice(), offset, self.get_endian())
    }

    /// Returns the proto id item with the given id.
    pub fn get_proto_item(&self, proto_id: u64) -> (r: Result<ProtoIdItem, DexError>)
        ensures
            r == spec_get_proto_item(self@, proto_id),
    {
        if proto_id >= self.inner.proto_ids_len() as u64 {
            return Err(DexError::InvalidId(InvalidId::ProtoId(proto_id)));
        }
        let offset = self.inner.proto_ids_offset() as u64 + proto_id * 12;
        read_proto_id_item(self.source.as_slice(), offset, self.get_endian())
    }

    /// Returns the method id item with the given id.
    pub fn get_method_item(&self, method_id: u64) -> (r: Result<MethodIdItem, DexError>)
        ensures
            r == spec_get_method_item(self@, method_id),
    {
        if method_id >= self.inner.method_ids_len() as u64 {
            return Err(DexError::InvalidId(InvalidId::MethodId(method_id)));
        }
        let offset = self.inner.method_ids_offset() as u64 + method_id * 8;
        read_method_id_item(self.source.as_slice(), offset, self.get_endian())
    }

    /// Returns the method handle item with the given id.
    pub fn get_method_handle_item(&self, method_handle_id: u32) -> (r: Result<MethodHandleItem, DexError>)
        ensures
            r == spec_get_method_handle_item(self@, method_handle_id),
    {
        let err = DexError::InvalidId(InvalidId::MethodHandleId(method_handle_id));
        let offset = match self.inner.method_handles_offset() {
            Some(o) => o,
            None => return Err(err),
        };
        let len = match self.inner.method_handles_len() {
            Some(l) => l,
            None => return Err(err),
        };
        if method_handle_id >= len {
            return Err(err);
        }
        let offset = offset as u64 + (method_handle_id as u64) * 8;
        read_method_handle_item(self.source.as_slice(), offset, self.get_endian())
    }

    /// The types with the given ids, in order.
    fn get_types(&self, type_ids: &Vec<u16>) -> (r: Result<Vec<Type>, DexError>)
        ensures
            (match (r, spec_get_types(self@, type_ids@)) {
                (Ok(v), Ok(s)) => types_view(v@) == s,
                (Err(e), Err(e2)) => e == e2,
                _ => false,
            }),
    {
        let mut out: Vec<Type> = Vec::new();
        let mut i: usize = 0;
        assert(types_view(out@) =~= Seq::<TypeView>::empty());
        assert(type_ids@.subrange(0, 0) =~= Seq::<u16>::empty());
        while i < type_ids.len()
            invariant
                i <= type_ids@.len(),
                spec_get_types(self@, type_ids@.subrange(0, i as int)) == Ok::<Seq<TypeView>, DexError>(types_view(out@)),
            decreases type_ids@.len() - i,
        {
            let ghost prefix = type_ids@.subrange(0, i + 1);
            assert(prefix.drop_last() =~= type_ids@.subrange(0, i as int));
            let t = match self.get_type(type_ids[i] as u32) {
                Ok(t) => t,
                Err(e) => {
                    proof {
                        lemma_types_err_prefix(self@, type_ids@, i + 1);
                    }
                    return Err(e);
                },
            };
            let ghost old_out = out@;
            let ghost tv = t@;
            out.push(t);
            assert(prefix.last() == type_ids@[i as int]);
            assert(types_view(out@) =~= types_view(old_out).push(tv));
            i = i + 1;
        }
        assert(type_ids@.subrange(0, i as int) =~= type_ids@);
        Ok(out)
    }

    /// The interfaces listed at byte offset `offset`, or none for offset 0.
    pub fn get_interfaces(&self, offset: u32) -> (r: Result<Option<Vec<Type>>, DexError>)
        ensures
            (match (r, spec_get_interfaces(self@, offset)) {
                (Ok(Some(v)), Ok(Some(s))) => types_view(v@) == s,
                (Ok(None), Ok(None)) => true,
                (Err(e), Err(e2)) => e == e2,
                _ => false,
            }),
    {
        if offset == 0 {
            return Ok(None);
        }
        let len = read_u32(self.source.as_slice(), offset as u64, self.get_endian())?;
        let type_ids = read_u16_run(self.source.as_slice(), offset as u64 + 4, len, self.get_endian())?;
        let types = self.get_types(&type_ids)?;
        Ok(Some(types))
    }

    /// The class data item at byte offset `offset`, or none for offset 0.
    pub fn get_class_data(&self, offset: u32) -> (r: Result<Option<ClassDataItem>, DexError>)
        ensures
            (match (r, spec_get_class_data(self@, offset)) {
                (Ok(Some(c)), Ok(Some(v))) => c@ == v,
                (Ok(None), Ok(None)) => true,
                (Err(e), Err(e2)) => e == e2,
                _ => false,
            }),
    {
        if offset == 0 {
            return Ok(None);
        }
        Ok(Some(read_class_data(self.source.as_slice(), offset as u64)?))
    }

    /// The code item at byte offset `code_off`, or none for offset 0.
    pub fn get_code_item(&self, code_off: u64) -> (r: Result<Option<CodeItem>, DexError>)
        ensures
            (match (r, spec_get_code_item(self@, code_off)) {
                (Ok(Some(c)), Ok(Some(v))) => c@ == v,
                (Ok(None), Ok(None)) => true,
                (Err(e), Err(e2)) => e == e2,
                _ => false,
            }),
    {
        proof {
            use_type_invariant(self);
        }
        if code_off == 0 {
            return Ok(None);
        }
        Ok(Some(read_code_item(self.source.as_slice(), code_off, self.get_endian())?))
    }

    /// The encoded array of static values at byte offset `static_values_off`, or none for
    /// offset 0.
    pub fn get_static_values(&self, static_values_off: u32) -> (r: Result<Option<EncodedArray>, DexError>)
        ensures
            (match (r, spec_get_static_values(self@, static_values_off)) {
                (Ok(Some(a)), Ok(Some(v))) => a@ == v,
                (Ok(None), Ok(None)) => true,
                (Err(e), Err(e2)) => e == e2,
                _ => false,
            }),
    {
        if static_values_off == 0 {
            return Ok(None);
        }
        Ok(Some(read_encoded_array(self.source.as_slice(), static_values_off as u64)?))
    }

    /// The debug info item at byte offset `debug_info_off`.
    pub fn get_debug_info_item(&self, debug_info_off: u32) -> (r: Result<DebugInfoItem, DexError>)
        ensures
            (match (r, spec_debug_info(self@.bytes, debug_info_off as int)) {
                (Ok(a), Ok(v)) => a@ == v,
                (Err(e), Err(e2)) => e == e2,
                _ => false,
            }),
    {
        read_debug_info(self.source.as_slice(), debug_info_off as u64)
    }

    /// The annotation item at byte offset `annotation_off`.
    pub fn get_annotation_item(&self, annotation_off: u32) -> (r: Result<AnnotationItem, DexError>)
        ensures
            (match (r, spec_annotation_item(self@.bytes, annotation_off as int)) {
                (Ok(a), Ok(v)) => a@ == v,
                (Err(e), Err(e2)) => e == e2,
                _ => false,
            }),
    {
        read_annotation_item(self.source.as_slice(), annotation_off as u64)
    }

    /// The annotation set item at byte offset `annotation_set_item_off`, or none for offset 0.
    pub fn get_annotation_set_item(&self, annotation_set_item_off: u32) -> (r: Result<
        Option<AnnotationSetItem>,
        DexError,
    >)
        ensures
            (match (r, spec_get_annotation_set_item(self@, annotation_set_item_off)) {
                (Ok(Some(a)), Ok(Some(v))) => a@ == v,
                (Ok(None), Ok(None)) => true,
                (Err(e), Err(e2)) => e == e2,
                _ => false,
            }),
    {
        if annotation_set_item_off == 0 {
            return Ok(None);
        }
        Ok(
            Some(
                read_annotation_set_item(
                    self.source.as_slice(),
                    annotation_set_item_off,
                    self.get_endian(),
                )?,
            ),
        )
    }

    /// The annotation set ref list at byte offset `annotation_set_ref_list_off`.
    pub fn get_annotation_set_ref_list(&self, annotation_set_ref_list_off: u32) -> (r: Result<
        AnnotationSetRefList,
        DexError,
    >)
        ensures
            (match (r, spec_offset_list(self@.bytes, annotation_set_ref_list_off as int, self@.endian)) {
                (Ok(a), Ok(v)) => a@ == v,
                (Err(e), Err(e2)) => e == e2,
                _ => false,
            }),
    {
        read_annotation_set_ref_list(
            self.source.as_slice(),
            annotation_set_ref_list_off,
            self.get_endian(),
        )
    }

    /// The annotations directory item at byte offset `annotations_directory_item_off`, or
    /// none for offset 0.
    pub fn get_annotations_directory_item(&self, annotations_directory_item_off: u32) -> (r: Result<
        Option<AnnotationsDirectoryItem>,
        DexError,
    >)
        ensures
            (match (r, spec_get_annotations_directory_item(self@, annotations_directory_item_off)) {
                (Ok(Some(a)), Ok(Some(v))) => a@ == v,
                (Ok(None), Ok(None)) => true,
                (Err(e), Err(e2)) => e == e2,
                _ => false,
            }),
    {
        if annotations_directory_item_off == 0 {
            return Ok(None);
        }
        Ok(
            Some(
                read_annotations_directory_item(
                    self.source.as_slice(),
                    annotations_directory_item_off,
                    self.get_endian(),
                )?,
            ),
        )
    }

    /// The field that an encoded field of a class data item describes.
    pub fn get_field(&self, encoded_field: &EncodedField) -> (r: Result<Field, DexError>)
        ensures
            result_view(r) == spec_get_field(self@, *encoded_field),
    {
        let item = self.get_field_item(encoded_field.field_id)?;
        let name = self.get_string(item.name_idx)?;
        let jtype = self.get_type(item.type_idx as u32)?;
        Ok(
            Field {
                id: encoded_field.field_id,
                class: item.class_idx,
                jtype,
                name,
                access_flags: encoded_field.access_flags,
            },
        )
    }

    /// The method that an encoded method of a class data item describes.
    pub fn get_method(&self, encoded_method: &EncodedMethod) -> (r: Result<Method, DexError>)
        ensures
            result_view(r) == spec_get_method(self@, *encoded_method),
    {
        let item = self.get_method_item(encoded_method.method_id)?;
        let proto = self.get_proto_item(item.proto_idx as u64)?;
        let name = self.get_string(item.name_idx)?;
        let shorty = self.get_string(proto.shorty)?;
        let return_type = self.get_type(proto.return_type)?;
        let params = self.get_interfaces(proto.params_off)?;
        let code = self.get_code_item(encoded_method.code_offset)?;
        Ok(
            Method {
                id: encoded_method.method_id,
                class: item.class_idx,
                name,
                shorty,
                return_type,
                params,
                access_flags: encoded_method.access_flags,
                code_off: encoded_method.code_offset,
                code,
            },
        )
    }

    /// The fields of a list of encoded fields, in order.
    fn get_fields(&self, encoded: &Vec<EncodedField>) -> (r: Result<Vec<Field>, DexError>)
        ensures
            (match (r, spec_get_fields(self@, encoded@)) {
                (Ok(v), Ok(s)) => fields_view(v@) == s,
                (Err(e), Err(e2)) => e == e2,
                _ => false,
            }),
    {
        let mut out: Vec<Field> = Vec::new();
        let mut i: usize = 0;
        assert(fields_view(out@) =~= Seq::<FieldView>::empty());
        assert(encoded@.subrange(0, 0) =~= Seq::<EncodedField>::empty());
        while i < encoded.len()
            invariant
                i <= encoded@.len(),
                spec_get_fields(self@, encoded@.subrange(0, i as int)) == Ok::<Seq<FieldView>, DexError>(fields_view(out@)),
            decreases encoded@.len() - i,
        {
            let ghost prefix = encoded@.subrange(0, i + 1);
            assert(prefix.drop_last() =~= encoded@.subrange(0, i as int));
            assert(prefix.last() == encoded@[i as int]);
            let f = match self.get_field(&encoded[i]) {
                Ok(f) => f,
                Err(e) => {
                    proof {
                        lemma_fields_err_prefix(self@, encoded@, i + 1);
                    }
                    return Err(e);
                },
            };
            let ghost old_out = out@;
            let ghost fv = f@;
            out.push(f);
            assert(fields_view(out@) =~= fields_view(old_out).push(fv));
            i = i + 1;
        }
        assert(encoded@.subrange(0, i as int) =~= encoded@);
        Ok(out)
    }

    /// The methods of a list of encoded methods, in order.
    fn get_methods(&self, encoded: &Vec<EncodedMethod>) -> (r: Result<Vec<Method>, DexError>)
        ensures
            (match (r, spec_get_methods(self@, encoded@)) {
                (Ok(v), Ok(s)) => methods_view(v@) == s,
                (Err(e), Err(e2)) => e == e2,
                _ => false,
            }),
    {
        let mut out: Vec<Method> = Vec::new();
        let mut i: usize = 0;
        assert(methods_view(out@) =~= Seq::<MethodView>::empty());
        assert(encoded@.subrange(0, 0) =~= Seq::<EncodedMethod>::empty());
        while i < encoded.len()
            invariant
                i <= encoded@.len(),
                spec_get_methods(self@, encoded@.subrange(0, i as int)) == Ok::<Seq<MethodView>, DexError>(methods_view(out@)),
            decreases encoded@.len() - i,
        {
            let ghost prefix = encoded@.subrange(0, i + 1);
            assert(prefix.drop_last() =~= encoded@.subrange(0, i as int));
            assert(prefix.last() == encoded@[i as int]);
            let m = match self.get_method(&encoded[i]) {
                Ok(m) => m,
                Err(e) => {
                    proof {
                        lemma_methods_err_prefix(self@, encoded@, i + 1);
                    }
                    return Err(e);
                },
            };
            let ghost old_out = out@;
            let ghost mv = m@;
            out.push(m);
            assert(methods_view(out@) =~= methods_view(old_out).push(mv));
            i = i + 1;
        }
        assert(encoded@.subrange(0, i as int) =~= encoded@);
        Ok(out)
    }

    /// The members of a class whose class data item is at byte offset `offset`.
    fn get_members(&self, offset: u32) -> (r: Result<(Vec<Field>, Vec<Field>, Vec<Method>, Vec<Method>), DexError>)
        ensures
            (match (r, spec_members(self@, offset)) {
                (Ok((sf, inf, dm, vm)), Ok(v)) => fields_view(sf@) == v.static_fields
                    && fields_view(inf@) == v.instance_fields && methods_view(dm@) == v.direct_methods
                    && methods_view(vm@) == v.virtual_methods,
                (Err(e), Err(e2)) => e == e2,
                _ => false,
            }),
    {
        reveal(spec_members);
        match self.get_class_data(offset)? {
            None => {
                let (sf, inf, dm, vm) = (Vec::new(), Vec::new(), Vec::new(), Vec::new());
                assert(fields_view(sf@) =~= Seq::<FieldView>::empty());
                assert(fields_view(inf@) =~= Seq::<FieldView>::empty());
                assert(methods_view(dm@) =~= Seq::<MethodView>::empty());
                assert(methods_view(vm@) =~= Seq::<MethodView>::empty());
                Ok((sf, inf, dm, vm))
            },
            Some(cd) => {
                let sf = self.get_fields(cd.static_fields())?;
                let inf = self.get_fields(cd.instance_fields())?;
                let dm = self.get_methods(cd.direct_methods())?;
                let vm = self.get_methods(cd.virtual_methods())?;
                Ok((sf, inf, dm, vm))
            },
        }
    }

    /// Builds the class of a class definition.
    fn class_from_def(&self, def: ClassDefItem) -> (r: Result<Class, DexError>)
        ensures
            result_view(r) == spec_class(self@, def),
    {
        let jtype = self.get_type(def.class_idx)?;
        let interfaces = self.get_interfaces(def.interfaces_off)?;
        let source_file = self.get_source_file(def.source_file_idx)?;
        let (static_fields, instance_fields, direct_methods, virtual_methods) = self.get_members(
            def.class_data_off,
        )?;
        let annotations = self.get_annotations_directory_item(def.annotations_off)?;
        let static_values = self.get_static_values(def.static_values_off)?;
        let super_class = if def.superclass_idx == NO_INDEX {
            None
        } else {
            Some(def.superclass_idx)
        };
        Ok(
            Class {
                def,
                jtype,
                super_class,
                interfaces,
                source_file,
                static_fields,
                instance_fields,
                direct_methods,
                virtual_methods,
                annotations,
                static_values,
            },
        )
    }

    /// Reads class definition number `i`.
    fn class_def_at(&self, i: u32) -> (r: Result<ClassDefItem, DexError>)
        ensures
            r == spec_class_def_at(self@, i as int),
    {
        let offset = self.inner.class_defs_offset() as u64 + 32 * (i as u64);
        read_class_def_item(self.source.as_slice(), offset, self.get_endian())
    }

    /// Finds the class whose type id is `type_id` by scanning the class definitions.
    pub fn find_class_by_type(&self, type_id: u32) -> (r: Result<Option<Class>, DexError>)
        ensures
            (match (r, spec_find_class_from(self@, type_id, 0)) {
                (Ok(Some(c)), Ok(Some(v))) => c@ == v,
                (Ok(None), Ok(None)) => true,
                (Err(e), Err(e2)) => e == e2,
                _ => false,
            }),
    {
        let n = self.inner.class_defs_len();
        let mut i: u32 = 0;
        while i < n
            invariant
                i <= n,
                n == self@.header.class_defs_size,
                spec_find_class_from(self@, type_id, 0) == spec_find_class_from(self@, type_id, i as int),
            decreases n - i,
        {
            let def = self.class_def_at(i)?;
            if def.class_idx == type_id {
                return Ok(Some(self.class_from_def(def)?));
            }
            i = i + 1;
        }
        Ok(None)
    }

    /// All classes of the class defs section, in order.
    pub fn classes(&self) -> (r: Vec<Result<Class, DexError>>)
        ensures
            r@.len() == self@.header.class_defs_size,
            forall|i: int| 0 <= i < r@.len() ==> result_view(#[trigger] r@[i]) == spec_class_at(self@, i),
    {
        let n = self.inner.class_defs_len();
        let mut out: Vec<Result<Class, DexError>> = Vec::new();
        let mut i: u32 = 0;
        while i < n
            invariant
                i <= n,
                n == self@.header.class_defs_size,
                out@.len() == i,
                forall|j: int| 0 <= j < i ==> result_view(#[trigger] out@[j]) == spec_class_at(self@, j),
            decreases n - i,
        {
            let c = match self.class_def_at(i) {
                Ok(def) => self.class_from_def(def),
                Err(e) => Err(e),
            };
            out.push(c);
            i = i + 1;
        }
        out
    }
}

/// The bytes of string number `i`, or none where it cannot be read.
pub open spec fn string_bytes(d: DexView, i: int) -> Seq<u8> {
    match spec_string_at(d, i) {
        Ok(s) => s.data,
        Err(_) => Seq::empty(),
    }
}

/// Every string of the string ids section can be read.
pub open spec fn strings_readable(d: DexView) -> bool {
    forall|i: int| 0 <= i < d.header.string_ids_size ==> (#[trigger] spec_string_at(d, i)) is Ok
}

/// The strings can all be read and are in strictly increasing byte order, as the DEX
/// format requires.
pub open spec fn strings_sorted(d: DexView) -> bool {
    &&& strings_readable(d)
    &&& forall|i: int, j: int|
        #![trigger string_bytes(d, i), string_bytes(d, j)]
        0 <= i < j < d.header.string_ids_size ==> lex_order(string_bytes(d, i), string_bytes(d, j))
            == Order::Less
}

/// The id of the string whose bytes are `name`, where one holds them.
pub open spec fn spec_find_string(d: DexView, name: Seq<u8>) -> Option<u32> {
    if exists|i: int| 0 <= i < d.header.string_ids_size && #[trigger] string_bytes(d, i) == name {
        Some((choose|i: int| 0 <= i < d.header.string_ids_size && #[trigger] string_bytes(d, i) == name) as u32)
    } else {
        None
    }
}

/// The type whose stored string id is `string_id`, where one holds it.
pub open spec fn spec_find_type(d: DexView, string_id: u32) -> Option<u32> {
    if exists|t: int| 0 <= t < d.header.type_ids_size && #[trigger] type_string_id(d, t) == string_id {
        Some((choose|t: int| 0 <= t < d.header.type_ids_size && #[trigger] type_string_id(d, t) == string_id) as u32)
    } else {
        None
    }
}

/// The binary search over the string ids `lo..hi` for the bytes `name`: the string in the
/// middle is read and compared with `name`, and the search goes on in the half before it
/// when it comes after `name`, in the half after it when it comes before.
pub open spec fn spec_string_search(d: DexView, name: Seq<u8>, lo: int, hi: int) -> Result<Option<u32>, DexError>
    decreases hi - lo,
{
    if 0 <= lo < hi {
        let mid = lo + (hi - lo) / 2;
        match spec_string_at(d, mid) {
            Err(e) => Err(e),
            Ok(s) => match lex_order(s.data, name) {
                Order::Equal => Ok(Some(mid as u32)),
                Order::Less => spec_string_search(d, name, mid + 1, hi),
                Order::Greater => spec_string_search(d, name, lo, mid),
            },
        }
    } else {
        Ok(None)
    }
}

/// The binary search over the type ids `lo..hi` for the string id `string_id`, in the
/// manner of `spec_string_search`.
pub open spec fn spec_type_search(d: DexView, string_id: u32, lo: int, hi: int) -> Option<u32>
    decreases hi - lo,
{
    if 0 <= lo < hi {
        let mid = lo + (hi - lo) / 2;
        let v = type_string_id(d, mid);
        if v == string_id {
            Some(mid as u32)
        } else if v < string_id {
            spec_type_search(d, string_id, mid + 1, hi)
        } else {
            spec_type_search(d, string_id, lo, mid)
        }
    } else {
        None
    }
}

/// Finding a class by name, on any file: the string search for the name, the type search
/// for the string id it found, then the first class definition of the type it found.
pub open spec fn spec_search_class_by_name(d: DexView, name: Seq<u8>) -> Result<Option<ClassView>, DexError> {
    match spec_string_search(d, name, 0, d.header.string_ids_size as int) {
        Err(e) => Err(e),
        Ok(None) => Ok(None),
        Ok(Some(sid)) => match spec_type_search(d, sid, 0, d.header.type_ids_size as int) {
            None => Ok(None),
            Some(t) => spec_find_class_from(d, t, 0),
        },
    }
}

/// Finding a class by name on a file whose strings and type ids are sorted: the string that
/// holds the name, the type that holds that string, then the first class definition of
/// that type.
pub open spec fn spec_find_class_by_name(d: DexView, name: Seq<u8>) -> Result<Option<ClassView>, DexError> {
    match spec_find_string(d, name) {
        None => Ok(None),
        Some(sid) => match spec_find_type(d, sid) {
            None => Ok(None),
            Some(t) => spec_find_class_from(d, t, 0),
        },
    }
}

/// The type ids section lies inside the file.
pub open spec fn type_ids_in_bounds(d: DexView) -> bool {
    d.header.type_ids_off + 4 * d.header.type_ids_size <= d.bytes.len()
}

/// The string id stored for type number `t`.
pub open spec fn type_string_id(d: DexView, t: int) -> u32 {
    spec_u32(d.bytes, d.header.type_ids_off + 4 * t, d.endian)
}

/// The type ids section is in strictly increasing order of string ids, as the DEX format
/// requires.
pub open spec fn type_ids_sorted(d: DexView) -> bool {
    forall|i: int, j: int|
        #![trigger type_string_id(d, i), type_string_id(d, j)]
        0 <= i < j < d.header.type_ids_size ==> type_string_id(d, i) < type_string_id(d, j)
}

/// Under sorted strings, two strings with the same bytes have the same id.
proof fn lemma_sorted_strings_unique(d: DexView, i: int, j: int)
    requires
        strings_sorted(d),
        0 <= i < d.header.string_ids_size,
        0 <= j < d.header.string_ids_size,
        string_bytes(d, i) == string_bytes(d, j),
    ensures
        i == j,
{
    law_lex_equal(string_bytes(d, i), string_bytes(d, j));
    if i < j {
        assert(lex_order(string_bytes(d, i), string_bytes(d, j)) == Order::Less);
    } else if j < i {
        assert(lex_order(string_bytes(d, j), string_bytes(d, i)) == Order::Less);
    }
}

/// A scan that found no class read every definition from `i` on and matched none.
proof fn lemma_find_class_none(d: DexView, type_id: u32, i: int)
    requires
        0 <= i,
        spec_find_class_from(d, type_id, i) == Ok::<Option<ClassView>, DexError>(None),
    ensures
        forall|k: int|
            i <= k < d.header.class_defs_size ==> ((#[trigger] spec_class_def_at(d, k)) matches Ok(def)
                && def.class_idx != type_id),
    decreases d.header.class_defs_size - i,
{
    if i < d.header.class_defs_size {
        lemma_find_class_none(d, type_id, i + 1);
    }
}

impl Dex {
    /// The id of the string whose bytes are `name`, found by binary search over the
    /// string ids section.
    pub fn get_string_id(&self, name: &[u8]) -> (r: Result<Option<u32>, DexError>)
        ensures
            r matches Ok(Some(i)) ==> i < self@.header.string_ids_size && spec_string_at(self@, i as int) is Ok
                && string_bytes(self@, i as int) == name@,
            r matches Ok(None) ==> strings_sorted(self@) ==> forall|i: int|
                0 <= i < self@.header.string_ids_size ==> #[trigger] string_bytes(self@, i) != name@,
            r matches Err(e) ==> exists|i: int|
                0 <= i < self@.header.string_ids_size && #[trigger] spec_string_at(self@, i) == Err::<JStringView, DexError>(e),
            strings_readable(self@) ==> r is Ok,
            strings_sorted(self@) ==> r == Ok::<Option<u32>, DexError>(spec_find_string(self@, name@)),
            r == spec_string_search(self@, name@, 0, self@.header.string_ids_size as int),
    {
        let ghost d = self@;
        let n = self.inner.strings_len() as u64;
        let mut lo: u64 = 0;
        let mut hi: u64 = n;
        while lo < hi
            invariant
                lo <= hi <= n,
                n == d.header.string_ids_size,
                d == self@,
                spec_string_search(d, name@, lo as int, hi as int) == spec_string_search(d, name@, 0, n as int),
                strings_sorted(d) ==> forall|i: int|
                    0 <= i < lo ==> lex_order(#[trigger] string_bytes(d, i), name@) == Order::Less,
                strings_sorted(d) ==> forall|j: int|
                    hi <= j < n ==> lex_order(#[trigger] string_bytes(d, j), name@) == Order::Greater,
            decreases hi - lo,
        {
            let mid = lo + (hi - lo) / 2;
            let s = match self.string_at(mid as u32) {
                Ok(s) => s,
                Err(e) => {
                    assert(spec_string_at(d, mid as int) == Err::<JStringView, DexError>(e));
                    return Err(e);
                },
            };
            let ghost sm = string_bytes(d, mid as int);
            assert(sm == s@.data);
            match compare_bytes(s.as_bytes(), name) {
                Order::Equal => {
                    proof {
                        law_lex_equal(sm, name@);
                        if strings_sorted(d) {
                            assert(string_bytes(d, mid as int) == name@);
                            let j = choose|i: int| 0 <= i < d.header.string_ids_size && #[trigger] string_bytes(d, i) == name@;
                            lemma_sorted_strings_unique(d, j, mid as int);
                        }
                    }
                    return Ok(Some(mid as u32));
                },
                Order::Less => {
                    proof {
                        if strings_sorted(d) {
                            assert forall|i: int| 0 <= i < mid + 1 implies lex_order(
                                #[trigger] string_bytes(d, i),
                                name@,
                            ) == Order::Less by {
                                if i < mid {
                                    assert(lex_order(string_bytes(d, i), sm) == Order::Less);
                                    law_lex_transitive(string_bytes(d, i), sm, name@);
                                }
                            }
                        }
                    }
                    lo = mid + 1;
                },
                Order::Greater => {
                    proof {
                        if strings_sorted(d) {
                            assert forall|j: int| mid <= j < n implies lex_order(
                                #[trigger] string_bytes(d, j),
                                name@,
                            ) == Order::Greater by {
                                if j > mid {
                                    let sj = string_bytes(d, j);
                                    assert(lex_order(sm, sj) == Order::Less);
                                    law_lex_antisymmetric(name@, sm);
                                    law_lex_transitive(name@, sm, sj);
                                    law_lex_antisymmetric(name@, sj);
                                }
                            }
                        }
                    }
                    hi = mid;
                },
            }
        }
        proof {
            if strings_sorted(d) {
                assert forall|i: int| 0 <= i < n implies #[trigger] string_bytes(d, i) != name@ by {
                    law_lex_equal(string_bytes(d, i), name@);
                }
            }
        }
        Ok(None)
    }

    /// The bytes of the type ids section.
    fn type_ids_section(&self) -> (r: &[u8])
        requires
            type_ids_in_bounds(self@),
        ensures
            r@ == self@.bytes.subrange(
                self@.header.type_ids_off as int,
                self@.header.type_ids_off + 4 * self@.header.type_ids_size,
            ),
    {
        let start = self.inner.type_ids_offset() as u64;
        let end = start + self.inner.type_ids_len() as u64 * 4;
        let src = self.source.as_slice();
        let len: usize = src.len();
        assert(end <= len);
        let (a, b) = (start as usize, end as usize);
        assert(a == start && b == end);
        vstd::slice::slice_subrange(src, a, b)
    }

    /// The bytes of the class defs section.
    #[allow(dead_code)]
    fn class_defs_section(&self) -> (r: &[u8])
        requires
            self@.header.class_defs_off + 32 * self@.header.class_defs_size <= self@.bytes.len(),
        ensures
            r@ == self@.bytes.subrange(
                self@.header.class_defs_off as int,
                self@.header.class_defs_off + 32 * self@.header.class_defs_size,
            ),
    {
        let start = self.inner.class_defs_offset() as u64;
        let end = start + self.inner.class_defs_len() as u64 * 32;
        let src = self.source.as_slice();
        let len: usize = src.len();
        assert(end <= len);
        let (a, b) = (start as usize, end as usize);
        assert(a == start && b == end);
        vstd::slice::slice_subrange(src, a, b)
    }

    /// The type id whose string id is `string_id`, found by binary search over the type
    /// ids section.
    pub fn get_type_id(&self, string_id: u32) -> (r: Result<Option<u32>, DexError>)
        requires
            type_ids_in_bounds(self@),
        ensures
            r is Ok,
            r matches Ok(Some(t)) ==> t < self@.header.type_ids_size && type_string_id(self@, t as int) == string_id,
            r matches Ok(None) ==> type_ids_sorted(self@) ==> forall|t: int|
                0 <= t < self@.header.type_ids_size ==> #[trigger] type_string_id(self@, t) != string_id,
            type_ids_sorted(self@) ==> r == Ok::<Option<u32>, DexError>(spec_find_type(self@, string_id)),
            r == Ok::<Option<u32>, DexError>(spec_type_search(self@, string_id, 0, self@.header.type_ids_size as int)),
    {
        let ghost d = self@;
        let section = self.type_ids_section();
        let endian = self.get_endian();
        let n = self.inner.type_ids_len() as u64;
        let mut lo: u64 = 0;
        let mut hi: u64 = n;
        while lo < hi
            invariant
                lo <= hi <= n,
                n == d.header.type_ids_size,
                d == self@,
                spec_type_search(d, string_id, lo as int, hi as int) == spec_type_search(d, string_id, 0, n as int),
                endian == d.endian,
                type_ids_in_bounds(d),
                section@ == d.bytes.subrange(d.header.type_ids_off as int, d.header.type_ids_off + 4 * n),
                type_ids_sorted(d) ==> forall|i: int|
                    0 <= i < lo ==> #[trigger] type_string_id(d, i) < string_id,
                type_ids_sorted(d) ==> forall|j: int|
                    hi <= j < n ==> #[trigger] type_string_id(d, j) > string_id,
            decreases hi - lo,
        {
            let mid = lo + (hi - lo) / 2;
            let off = 4 * mid;
            let ghost base = d.header.type_ids_off + 4 * mid;
            assert(section@[off as int] == d.bytes[base]);
            assert(section@[off + 1] == d.bytes[base + 1]);
            assert(section@[off + 2] == d.bytes[base + 2]);
            assert(section@[off + 3] == d.bytes[base + 3]);
            let v = match read_u32(section, off, endian) {
                Ok(v) => v,
                Err(_) => {
                    assert(false);
                    return Ok(None);
                },
            };
            assert(v == type_string_id(d, mid as int));
            if v == string_id {
                proof {
                    if type_ids_sorted(d) {
                        let j = choose|t: int| 0 <= t < d.header.type_ids_size && #[trigger] type_string_id(d, t) == string_id;
                        if j < mid {
                            assert(type_string_id(d, j) < type_string_id(d, mid as int));
                        } else if j > mid {
                            assert(type_string_id(d, mid as int) < type_string_id(d, j));
                        }
                    }
                }
                return Ok(Some(mid as u32));
            } else if v < string_id {
                lo = mid + 1;
            } else {
                hi = mid;
            }
        }
        Ok(None)
    }

    /// Finds `Class` by the given class name. The name should be in smali format.
    /// This method uses binary search to find the class definition using the property
    /// that the strings, type ids and class defs sections are in sorted.
    pub fn find_class_by_name(&self, type_descriptor: &str) -> (r: Result<Option<Class>, DexError>)
        requires
            spec_string_search(self@, type_descriptor.spec_bytes(), 0, self@.header.string_ids_size as int) matches Ok(
                Some(_),
            ) ==> type_ids_in_bounds(self@),
        ensures
            (match (r, spec_search_class_by_name(self@, type_descriptor.spec_bytes())) {
                (Ok(Some(c)), Ok(Some(v))) => c@ == v,
                (Ok(None), Ok(None)) => true,
                (Err(e), Err(e2)) => e == e2,
                _ => false,
            }),
            r matches Ok(Some(c)) ==> c@.jtype.descriptor.data == type_descriptor.spec_bytes()
                && spec_find_class_from(self@, c@.def.class_idx, 0) == Ok::<Option<ClassView>, DexError>(Some(c@)),
            r matches Ok(None) ==> strings_sorted(self@) && type_ids_sorted(self@) ==> forall|k: int|
                0 <= k < self@.header.class_defs_size ==> !(#[trigger] spec_class_at(self@, k) matches Ok(c)
                    && c.jtype.descriptor.data == type_descriptor.spec_bytes()),
            r matches Err(e) ==> (exists|i: int|
                0 <= i < self@.header.string_ids_size && #[trigger] spec_string_at(self@, i) == Err::<JStringView, DexError>(e))
                || (exists|t: u32| #[trigger] spec_find_class_from(self@, t, 0) == Err::<Option<ClassView>, DexError>(e)),
            strings_sorted(self@) && type_ids_sorted(self@) ==> (match (
                r,
                spec_find_class_by_name(self@, type_descriptor.spec_bytes()),
            ) {
                (Ok(Some(c)), Ok(Some(v))) => c@ == v,
                (Ok(None), Ok(None)) => true,
                (Err(e), Err(e2)) => e == e2,
                _ => false,
            }),
    {
        let ghost d = self@;
        let ghost name = type_descriptor.spec_bytes();
        let string_id = match self.get_string_id(type_descriptor.as_bytes())? {
            Some(sid) => sid,
            None => {
                proof {
                    if strings_sorted(d) && type_ids_sorted(d) {
                        lemma_no_class_without_string(d, name);
                    }
                }
                return Ok(None);
            },
        };
        let type_id = match self.get_type_id(string_id)? {
            Some(t) => t,
            None => {
                proof {
                    if strings_sorted(d) && type_ids_sorted(d) {
                        lemma_no_class_without_type(d, name, string_id as int);
                    }
                }
                return Ok(None);
            },
        };
        let r = self.find_class_by_type(type_id);
        proof {
            match &r {
                Ok(None) => {
                    if strings_sorted(d) && type_ids_sorted(d) {
                        lemma_no_class_with_type(d, name, string_id as int, type_id);
                    }
                },
                Ok(Some(_)) => {
                    lemma_find_class_some(d, type_id, 0);
                },
                Err(_) => {},
            }
        }
        r
    }
}

/// What a readable class says of its type: its class definition, its type id and the
/// string its descriptor was read from.
proof fn lemma_class_at_descriptor(d: DexView, k: int)
    requires
        spec_class_at(d, k) is Ok,
    ensures
        ({
            let c = spec_class_at(d, k)->Ok_0;
            let t = c.def.class_idx;
            &&& spec_class_def_at(d, k) == Ok::<ClassDefItem, DexError>(c.def)
            &&& t < d.header.type_ids_size
            &&& spec_get_type(d, t) == Ok::<TypeView, DexError>(c.jtype)
            &&& type_string_id(d, t as int) < d.header.string_ids_size
            &&& spec_string_at(d, type_string_id(d, t as int) as int) is Ok
            &&& string_bytes(d, type_string_id(d, t as int) as int) == c.jtype.descriptor.data
        }),
{
}

/// A scan that found a class found it at a definition of that type.
proof fn lemma_find_class_some(d: DexView, type_id: u32, i: int)
    requires
        0 <= i,
        spec_find_class_from(d, type_id, i) matches Ok(Some(_)),
    ensures
        ({
            let c = spec_find_class_from(d, type_id, i)->Ok_0->Some_0;
            c.def.class_idx == type_id && spec_get_type(d, type_id) == Ok::<TypeView, DexError>(c.jtype)
        }),
    decreases d.header.class_defs_size - i,
{
    if i < d.header.class_defs_size {
        if let Ok(def) = spec_class_def_at(d, i) {
            if def.class_idx != type_id {
                lemma_find_class_some(d, type_id, i + 1);
            }
        }
    }
}

/// With sorted strings, no class is named by a string that no string id holds.
proof fn lemma_no_class_without_string(d: DexView, name: Seq<u8>)
    requires
        forall|i: int| 0 <= i < d.header.string_ids_size ==> #[trigger] string_bytes(d, i) != name,
    ensures
        forall|k: int|
            0 <= k < d.header.class_defs_size ==> !((#[trigger] spec_class_at(d, k)) matches Ok(c)
                && c.jtype.descriptor.data == name),
{
    assert forall|k: int| 0 <= k < d.header.class_defs_size implies !((#[trigger] spec_class_at(
        d,
        k,
    )) matches Ok(c) && c.jtype.descriptor.data == name) by {
        if spec_class_at(d, k) is Ok {
            lemma_class_at_descriptor(d, k);
            let c = spec_class_at(d, k)->Ok_0;
            assert(string_bytes(d, type_string_id(d, c.def.class_idx as int) as int) != name);
        }
    }
}

/// With sorted strings, a class named `name` has a type whose string id is that of `name`.
proof fn lemma_class_named_type(d: DexView, name: Seq<u8>, sid: int, k: int)
    requires
        strings_sorted(d),
        0 <= sid < d.header.string_ids_size,
        string_bytes(d, sid) == name,
        spec_class_at(d, k) matches Ok(c) && c.jtype.descriptor.data == name,
    ensures
        ({
            let c = spec_class_at(d, k)->Ok_0;
            &&& c.def.class_idx < d.header.type_ids_size
            &&& type_string_id(d, c.def.class_idx as int) == sid
            &&& spec_class_def_at(d, k) == Ok::<ClassDefItem, DexError>(c.def)
        }),
{
    lemma_class_at_descriptor(d, k);
    let c = spec_class_at(d, k)->Ok_0;
    lemma_sorted_strings_unique(d, type_string_id(d, c.def.class_idx as int) as int, sid);
}

/// With sorted strings, no class is named `name` when no type holds its string id.
proof fn lemma_no_class_without_type(d: DexView, name: Seq<u8>, sid: int)
    requires
        strings_sorted(d),
        0 <= sid < d.header.string_ids_size,
        string_bytes(d, sid) == name,
        forall|t: int| 0 <= t < d.header.type_ids_size ==> #[trigger] type_string_id(d, t) != sid,
    ensures
        forall|k: int|
            0 <= k < d.header.class_defs_size ==> !((#[trigger] spec_class_at(d, k)) matches Ok(c)
                && c.jtype.descriptor.data == name),
{
    assert forall|k: int| 0 <= k < d.header.class_defs_size implies !((#[trigger] spec_class_at(
        d,
        k,
    )) matches Ok(c) && c.jtype.descriptor.data == name) by {
        if spec_class_at(d, k) matches Ok(c) && c.jtype.descriptor.data == name {
            lemma_class_named_type(d, name, sid, k);
        }
    }
}

/// With sorted strings and types, no class is named `name` when no class definition has
/// the type that holds its string id.
proof fn lemma_no_class_with_type(d: DexView, name: Seq<u8>, sid: int, type_id: u32)
    requires
        strings_sorted(d),
        type_ids_sorted(d),
        0 <= sid < d.header.string_ids_size,
        string_bytes(d, sid) == name,
        type_id < d.header.type_ids_size,
        type_string_id(d, type_id as int) == sid,
        spec_find_class_from(d, type_id, 0) == Ok::<Option<ClassView>, DexError>(None),
    ensures
        forall|k: int|
            0 <= k < d.header.class_defs_size ==> !((#[trigger] spec_class_at(d, k)) matches Ok(c)
                && c.jtype.descriptor.data == name),
{
    lemma_find_class_none(d, type_id, 0);
    assert forall|k: int| 0 <= k < d.header.class_defs_size implies !((#[trigger] spec_class_at(
        d,
        k,
    )) matches Ok(c) && c.jtype.descriptor.data == name) by {
        if spec_class_at(d, k) matches Ok(c) && c.jtype.descriptor.data == name {
            lemma_class_named_type(d, name, sid, k);
            let t = spec_class_at(d, k)->Ok_0.def.class_idx as int;
            if t < type_id {
                assert(type_string_id(d, t) < type_string_id(d, type_id as int));
            } else if t > type_id {
                assert(type_string_id(d, type_id as int) < type_string_id(d, t));
            }
            assert(spec_class_def_at(d, k) matches Ok(def) && def.class_idx != type_id);
        }
    }
}

/// Law: with sorted strings, searching for the bytes of string `i` finds `i`.
pub proof fn law_string_search_finds_lookup(d: DexView, i: u32)
    requires
        strings_sorted(d),
        i < d.header.string_ids_size,
    ensures
        spec_find_string(d, string_bytes(d, i as int)) == Some(i),
        spec_get_string(d, i) matches Ok(s) && s.data == string_bytes(d, i as int),
{
    let name = string_bytes(d, i as int);
    assert(string_bytes(d, i as int) == name);
    let j = choose|k: int| 0 <= k < d.header.string_ids_size && #[trigger] string_bytes(d, k) == name;
    lemma_sorted_strings_unique(d, j, i as int);
    assert(spec_string_at(d, i as int) is Ok);
}

/// Law: with sorted type ids, searching for the string id stored for type `t` finds `t`.
pub proof fn law_type_search_finds_type(d: DexView, t: u32)
    requires
        type_ids_sorted(d),
        t < d.header.type_ids_size,
    ensures
        spec_find_type(d, type_string_id(d, t as int)) == Some(t),
{
    let sid = type_string_id(d, t as int);
    assert(type_string_id(d, t as int) == sid);
    let j = choose|k: int| 0 <= k < d.header.type_ids_size && #[trigger] type_string_id(d, k) == sid;
    if j < t {
        assert(type_string_id(d, j) < type_string_id(d, t as int));
    } else if j > t {
        assert(type_string_id(d, t as int) < type_string_id(d, j));
    }
}

/// Law: on a file with sorted strings and type ids, a class found by name is a class that
/// the class definitions list, and its type descriptor is that name.
pub proof fn law_class_found_by_name_is_listed(d: DexView, name: Seq<u8>)
    requires
        strings_sorted(d),
        type_ids_sorted(d),
        type_ids_in_bounds(d),
        spec_find_class_by_name(d, name) matches Ok(Some(_)),
    ensures
        exists|k: int|
            #![trigger spec_class_at(d, k)]
            0 <= k < d.header.class_defs_size && spec_class_at(d, k) == Ok::<ClassView, DexError>(
                spec_find_class_by_name(d, name)->Ok_0->Some_0,
            ) && spec_class_at(d, k)->Ok_0.jtype.descriptor.data == name,
{
    let sid = spec_find_string(d, name)->Some_0;
    let t = spec_find_type(d, sid)->Some_0;
    let i = choose|i: int| 0 <= i < d.header.string_ids_size && #[trigger] string_bytes(d, i) == name;
    let tt = choose|k: int| 0 <= k < d.header.type_ids_size && #[trigger] type_string_id(d, k) == sid;
    assert(string_bytes(d, sid as int) == name);
    assert(type_string_id(d, t as int) == sid);
    law_find_class_is_first_listed(d, t, 0);
    lemma_find_class_some(d, t, 0);
    assert(spec_string_at(d, sid as int) is Ok);
}

/// Law: the descriptor of a type is the string whose id the type ids section stores for it.
pub proof fn law_type_descriptor_is_its_string(d: DexView, type_id: u32)
    requires
        type_ids_in_bounds(d),
        type_id < d.header.type_ids_size,
        type_string_id(d, type_id as int) < d.header.string_ids_size,
    ensures
        spec_get_type(d, type_id) == (match spec_string_at(d, type_string_id(d, type_id as int) as int) {
            Ok(s) => Ok(TypeView { id: type_id, descriptor: s }),
            Err(e) => Err::<TypeView, DexError>(e),
        }),
{
}

/// Law: listing all strings gives, at each position, what looking up that string id gives.
pub proof fn law_strings_agree_with_get_string(d: DexView, i: u32)
    requires
        i < d.header.string_ids_size,
    ensures
        spec_get_string(d, i) == spec_string_at(d, i as int),
{
}

/// Class definition number `k` can be read and defines the class of type `type_id`.
pub open spec fn def_of_type(d: DexView, k: int, type_id: u32) -> bool {
    spec_class_def_at(d, k) matches Ok(def) && def.class_idx == type_id
}

/// Class definition number `k` can be read and defines a class of another type.
pub open spec fn def_of_other_type(d: DexView, k: int, type_id: u32) -> bool {
    spec_class_def_at(d, k) matches Ok(def) && def.class_idx != type_id
}

/// Law: a class found by type is the class listed at the first class definition of that
/// type, and no earlier definition has that type.
#[verifier::spinoff_prover]
#[verifier::rlimit(40)]
pub proof fn law_find_class_is_first_listed(d: DexView, type_id: u32, i: int)
    requires
        0 <= i,
        spec_find_class_from(d, type_id, i) matches Ok(Some(_)),
    ensures
        exists|k: int|
            #![trigger spec_class_at(d, k)]
            i <= k < d.header.class_defs_size && spec_class_at(d, k) == Ok::<ClassView, DexError>(
                spec_find_class_from(d, type_id, i)->Ok_0->Some_0,
            ) && def_of_type(d, k, type_id) && forall|j: int|
                i <= j < k ==> #[trigger] def_of_other_type(d, j, type_id),
    decreases d.header.class_defs_size - i,
{
    if let Ok(def) = spec_class_def_at(d, i) {
        if def.class_idx == type_id {
            assert(spec_class_at(d, i) == Ok::<ClassView, DexError>(
                spec_find_class_from(d, type_id, i)->Ok_0->Some_0,
            ));
        } else {
            law_find_class_is_first_listed(d, type_id, i + 1);
            let k = choose|k: int|
                #![trigger spec_class_at(d, k)]
                i + 1 <= k < d.header.class_defs_size && spec_class_at(d, k) == Ok::<ClassView, DexError>(
                    spec_find_class_from(d, type_id, i + 1)->Ok_0->Some_0,
                ) && def_of_type(d, k, type_id) && forall|j: int|
                    i + 1 <= j < k ==> #[trigger] def_of_other_type(d, j, type_id);
            assert(spec_class_at(d, k) == Ok::<ClassView, DexError>(
                spec_find_class_from(d, type_id, i)->Ok_0->Some_0,
            ));
        }
    }
}

/// An error among the fields of a prefix of the list is the error of the whole list.
proof fn lemma_fields_err_prefix(d: DexView, s: Seq<EncodedField>, i: int)
    requires
        0 <= i <= s.len(),
        spec_get_fields(d, s.subrange(0, i)) is Err,
    ensures
        spec_get_fields(d, s) == spec_get_fields(d, s.subrange(0, i)),
    decreases s.len() - i,
{
    if i < s.len() {
        let next = s.subrange(0, i + 1);
        assert(next.drop_last() =~= s.subrange(0, i));
        lemma_fields_err_prefix(d, s, i + 1);
    } else {
        assert(s.subrange(0, i) =~= s);
    }
}

/// An error among the methods of a prefix of the list is the error of the whole list.
proof fn lemma_methods_err_prefix(d: DexView, s: Seq<EncodedMethod>, i: int)
    requires
        0 <= i <= s.len(),
        spec_get_methods(d, s.subrange(0, i)) is Err,
    ensures
        spec_get_methods(d, s) == spec_get_methods(d, s.subrange(0, i)),
    decreases s.len() - i,
{
    if i < s.len() {
        let next = s.subrange(0, i + 1);
        assert(next.drop_last() =~= s.subrange(0, i));
        lemma_methods_err_prefix(d, s, i + 1);
    } else {
        assert(s.subrange(0, i) =~= s);
    }
}

/// An error among the types of a prefix of the ids is the error of the whole list.
proof fn lemma_types_err_prefix(d: DexView, ids: Seq<u16>, i: int)
    requires
        0 <= i <= ids.len(),
        spec_get_types(d, ids.subrange(0, i)) is Err,
    ensures
        spec_get_types(d, ids) == spec_get_types(d, ids.subrange(0, i)),
    decreases ids.len() - i,
{
    if i < ids.len() {
        let next = ids.subrange(0, i + 1);
        assert(next.drop_last() =~= ids.subrange(0, i));
        lemma_types_err_prefix(d, ids, i + 1);
    } else {
        assert(ids.subrange(0, i) =~= ids);
    }
}

/// Opens DEX files.
pub struct DexReader;

impl DexReader {
    /// Reads a `Dex` from the bytes of a file; returns an error if they are not a dex.
    pub fn from_vec(bytes: Vec<u8>) -> (r: Result<Dex, DexError>)
        requires
            bytes@.len() <= isize::MAX,
        ensures
            r is Ok <==> spec_parse_inner(bytes@) is Ok,
            r matches Ok(d) ==> d@.bytes == bytes@ && spec_parse_inner(bytes@) == Ok::<DexInnerView, DexError>(
                DexInnerView { header: d@.header, map_items: d@.map_items, endian: d@.endian },
            ),
            r matches Err(e) ==> (spec_parse_inner(bytes@) == Err::<DexInnerView, DexError>(e)),
    {
        let inner = DexInner::try_from_bytes(bytes.as_slice())?;
        Ok(Dex { source: bytes, inner })
    }
}

} // verus!

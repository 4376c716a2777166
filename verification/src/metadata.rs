//! What a chain's runtime says about its modules and their events.

use vstd::prelude::*;

use frame_metadata::RuntimeMetadataLastVersion;
use parity_scale_codec::{Compact, Decode, Encode};
use std::collections::HashMap;
use std::convert::TryFrom;
use vstd::std_specs::convert::TryFromSpecImpl;

use crate::event_arg::texts;
pub use crate::event_arg::EventArg;
use crate::text::{decimal, decimal_text};

verus! {

/// Every piece of runtime metadata starts with this number: `meta`, read as a little-endian
/// integer.
pub const META_RESERVED: u32 = 0x6174656d;

/// What can be wrong with metadata, or with a request for a part of it.
#[derive(Debug)]
pub enum Error {
    Extraction(u8),
    ModuleNotFound(u8),
    EventNotFound(u8),
    StorageNotFound(u8),
    InvalidEventArgument(String),
    InvalidPrefix,
    InvalidVersion,
    MissingType(u32),
    TypeDefNotVariant(u32),
}

impl Error {
    /// The message of the error.
    pub open spec fn text(self) -> Seq<char> {
        match self {
            Error::Extraction(idx) => "Error extracting substrate metadata: "@ + decimal(
                idx as nat,
            ),
            Error::ModuleNotFound(_) => "Module not found"@,
            Error::EventNotFound(_) => "Event not found"@,
            Error::StorageNotFound(_) => "Storage not found"@,
            Error::InvalidEventArgument(text) => "Event argument error: "@ + text@,
            Error::InvalidPrefix => "Invalid metadata prefix"@,
            Error::InvalidVersion => "Invalid metadata version"@,
            Error::MissingType(id) => "Type "@ + decimal(id as nat)
                + " missing from type registry"@,
            Error::TypeDefNotVariant(id) => "Type "@ + decimal(id as nat)
                + " was not a variant/enum type"@,
        }
    }

    /// The message of the error.
    pub fn message(&self) -> (message: String)
        ensures
            message@ == self.text(),
            match *self {
                Error::Extraction(idx) => message@ == "Error extracting substrate metadata: "@
                    + decimal(idx as nat),
                Error::ModuleNotFound(_) => message@ == "Module not found"@,
                Error::EventNotFound(_) => message@ == "Event not found"@,
                Error::StorageNotFound(_) => message@ == "Storage not found"@,
                Error::InvalidEventArgument(text) => message@ == "Event argument error: "@ + text@,
                Error::InvalidPrefix => message@ == "Invalid metadata prefix"@,
                Error::InvalidVersion => message@ == "Invalid metadata version"@,
                Error::MissingType(id) => message@ == "Type "@ + decimal(id as nat)
                    + " missing from type registry"@,
                Error::TypeDefNotVariant(id) => message@ == "Type "@ + decimal(id as nat)
                    + " was not a variant/enum type"@,
            },
    {
        match self {
            Error::Extraction(idx) => {
                let number = decimal_text(*idx as u32);
                "Error extracting substrate metadata: ".to_owned().concat(number.as_str())
            },
            Error::ModuleNotFound(_) => "Module not found".to_owned(),
            Error::EventNotFound(_) => "Event not found".to_owned(),
            Error::StorageNotFound(_) => "Storage not found".to_owned(),
            Error::InvalidEventArgument(text) => "Event argument error: ".to_owned().concat(
                text.as_str(),
            ),
            Error::InvalidPrefix => "Invalid metadata prefix".to_owned(),
            Error::InvalidVersion => "Invalid metadata version".to_owned(),
            Error::MissingType(id) => {
                let number = decimal_text(*id);
                "Type ".to_owned().concat(number.as_str()).concat(" missing from type registry")
            },
            Error::TypeDefNotVariant(id) => {
                let number = decimal_text(*id);
                "Type ".to_owned().concat(number.as_str()).concat(" was not a variant/enum type")
            },
        }
    }
}

/// Declares `frame_metadata::RuntimeMetadataLastVersion`: the types and the modules of a
/// runtime, and more that is only carried.
#[verifier::external_type_specification]
#[verifier::external_body]
pub struct ExRuntimeMetadata(frame_metadata::RuntimeMetadataLastVersion);

/// Metadata as a runtime hands it out: the number that it starts with, and the rest.
#[derive(Debug)]
pub struct RuntimeMetadataPrefixed(pub u32, pub RuntimeMetadata);

/// The metadata of a runtime, by its version.
#[derive(Debug)]
pub enum RuntimeMetadata {
    V14(RuntimeMetadataLastVersion),
    Other,
}

/// One module of a runtime: its name, the number of its event type where it has events, and
/// its index.
#[derive(Debug)]
pub struct PalletMetadata {
    pub name: String,
    pub event: Option<u32>,
    pub index: u8,
}

/// How a type is made up, as far as events are concerned.
#[derive(Debug)]
pub enum TypeDef {
    Variant(Vec<Variant>),
    Other,
}

/// One variant of a type: its name, its fields, its index and its documentation.
#[derive(Debug)]
pub struct Variant {
    pub name: String,
    pub fields: Vec<Field>,
    pub index: u8,
    pub docs: Vec<String>,
}

/// One field of a variant: its name where it has one, the number of its type, the text of its
/// type as the source code has it, where that is known, and its documentation.
#[derive(Debug)]
pub struct Field {
    pub name: Option<String>,
    pub ty: u32,
    pub type_text: Option<String>,
    pub docs: Vec<String>,
}

/// A module of a runtime together with the type of its events, as it was looked up by its
/// number: `None` where no type has that number.
#[derive(Debug)]
pub struct ResolvedPallet {
    pub name: String,
    pub index: u8,
    pub event: Option<(u32, Option<TypeDef>)>,
}

/// One event of a module.
#[derive(Debug)]
pub struct ModuleEventMetadata {
    name: String,
    variant: Variant,
}

/// A module.
#[derive(Debug)]
pub struct Module {
    name: String,
    storage: Vec<()>,
}

/// A module with its events.
#[derive(Debug)]
pub struct ModuleWithEvents {
    name: String,
    events: Vec<ModuleEventMetadata>,
}

/// The modules of a runtime and the events that each of them has.
#[derive(Debug)]
pub struct Metadata {
    metadata: RuntimeMetadataLastVersion,
    modules: HashMap<u8, Module>,
    modules_with_events: HashMap<u8, ModuleWithEvents>,
}

/// What [`PalletMetadata`] stands for.
pub struct PalletMetadataView {
    pub name: Seq<char>,
    pub event: Option<u32>,
    pub index: u8,
}

/// What [`TypeDef`] stands for.
pub enum TypeDefView {
    Variant(Seq<VariantView>),
    Other,
}

/// What [`Variant`] stands for.
pub struct VariantView {
    pub name: Seq<char>,
    pub fields: Seq<FieldView>,
    pub index: u8,
    pub docs: Seq<Seq<char>>,
}

/// What [`Field`] stands for.
pub struct FieldView {
    pub name: Option<Seq<char>>,
    pub ty: u32,
    pub type_text: Option<Seq<char>>,
    pub docs: Seq<Seq<char>>,
}

/// What [`ResolvedPallet`] stands for.
pub struct ResolvedPalletView {
    pub name: Seq<char>,
    pub index: u8,
    pub event: Option<(u32, Option<TypeDefView>)>,
}

/// What [`ModuleEventMetadata`] stands for.
pub struct ModuleEventMetadataView {
    pub name: Seq<char>,
    pub variant: VariantView,
}

/// What [`Module`] stands for: its name, and how many storage items it lists.
pub struct ModuleView {
    pub name: Seq<char>,
    pub storage: nat,
}

/// What [`ModuleWithEvents`] stands for.
pub struct ModuleWithEventsView {
    pub name: Seq<char>,
    pub events: Seq<ModuleEventMetadataView>,
}

/// What [`Metadata`] stands for.
#[verifier::ext_equal]
pub struct MetadataView {
    pub runtime: RuntimeMetadataLastVersion,
    pub modules: Map<u8, ModuleView>,
    pub modules_with_events: Map<u8, ModuleWithEventsView>,
}

impl View for PalletMetadata {
    type V = PalletMetadataView;

    open spec fn view(&self) -> PalletMetadataView {
        PalletMetadataView { name: self.name@, event: self.event, index: self.index }
    }
}

impl View for TypeDef {
    type V = TypeDefView;

    open spec fn view(&self) -> TypeDefView {
        match self {
            TypeDef::Variant(variants) => TypeDefView::Variant(variant_views(variants@)),
            TypeDef::Other => TypeDefView::Other,
        }
    }
}

impl View for Variant {
    type V = VariantView;

    open spec fn view(&self) -> VariantView {
        VariantView {
            name: self.name@,
            fields: field_views(self.fields@),
            index: self.index,
            docs: texts(self.docs@),
        }
    }
}

impl View for Field {
    type V = FieldView;

    open spec fn view(&self) -> FieldView {
        FieldView {
            name: text_if_any(self.name),
            ty: self.ty,
            type_text: text_if_any(self.type_text),
            docs: texts(self.docs@),
        }
    }
}

impl View for ResolvedPallet {
    type V = ResolvedPalletView;

    open spec fn view(&self) -> ResolvedPalletView {
        ResolvedPalletView {
            name: self.name@,
            index: self.index,
            event: match self.event {
                None => None,
                Some((id, None)) => Some((id, None)),
                Some((id, Some(def))) => Some((id, Some(def@))),
            },
        }
    }
}

impl View for ModuleEventMetadata {
    type V = ModuleEventMetadataView;

    closed spec fn view(&self) -> ModuleEventMetadataView {
        ModuleEventMetadataView { name: self.name@, variant: self.variant@ }
    }
}

impl View for Module {
    type V = ModuleView;

    closed spec fn view(&self) -> ModuleView {
        ModuleView { name: self.name@, storage: self.storage@.len() }
    }
}

impl View for ModuleWithEvents {
    type V = ModuleWithEventsView;

    closed spec fn view(&self) -> ModuleWithEventsView {
        ModuleWithEventsView { name: self.name@, events: event_views(self.events@) }
    }
}

impl View for Metadata {
    type V = MetadataView;

    closed spec fn view(&self) -> MetadataView {
        MetadataView {
            runtime: self.metadata,
            modules: module_views(self.modules@),
            modules_with_events: with_events_views(self.modules_with_events@),
        }
    }
}

/// What a list of events stands for.
pub open spec fn event_views(events: Seq<ModuleEventMetadata>) -> Seq<ModuleEventMetadataView> {
    events.map_values(|e: ModuleEventMetadata| e@)
}

/// What a list of variants stands for.
pub open spec fn variant_views(variants: Seq<Variant>) -> Seq<VariantView> {
    variants.map_values(|v: Variant| v@)
}

/// What a list of fields stands for.
pub open spec fn field_views(fields: Seq<Field>) -> Seq<FieldView> {
    fields.map_values(|f: Field| f@)
}

/// What a list of pallets stands for.
pub open spec fn pallet_views(pallets: Seq<PalletMetadata>) -> Seq<PalletMetadataView> {
    pallets.map_values(|p: PalletMetadata| p@)
}

/// What a list of pallets with their event types stands for.
pub open spec fn resolved_views(pallets: Seq<ResolvedPallet>) -> Seq<ResolvedPalletView> {
    pallets.map_values(|p: ResolvedPallet| p@)
}

/// The contents of a string, where there is one.
pub open spec fn text_if_any(string: Option<String>) -> Option<Seq<char>> {
    match string {
        Some(s) => Some(s@),
        None => None,
    }
}

/// What a table of modules stands for.
pub open spec fn module_views(modules: Map<u8, Module>) -> Map<u8, ModuleView> {
    modules.map_values(|m: Module| m@)
}

/// What a table of modules with events stands for.
pub open spec fn with_events_views(modules: Map<u8, ModuleWithEvents>) -> Map<
    u8,
    ModuleWithEventsView,
> {
    modules.map_values(|m: ModuleWithEvents| m@)
}

/// The modules that `pallets` make up, by index. Of several with one index the last counts.
pub open spec fn module_catalogue(pallets: Seq<ResolvedPalletView>) -> Map<u8, ModuleView>
    decreases pallets.len(),
{
    if pallets.len() == 0 {
        Map::empty()
    } else {
        module_catalogue(pallets.drop_last()).insert(
            pallets.last().index,
            ModuleView { name: pallets.last().name, storage: 0 },
        )
    }
}

/// The events that the variants of a type are: one for each, under its name.
pub open spec fn events_of(variants: Seq<VariantView>) -> Seq<ModuleEventMetadataView> {
    variants.map_values(|v: VariantView| ModuleEventMetadataView { name: v.name, variant: v })
}

/// The events of the type that was found under the number `id`, or why there are none.
pub open spec fn events_of_type(id: u32, found: Option<TypeDefView>) -> Result<
    Seq<ModuleEventMetadataView>,
    Error,
> {
    match found {
        None => Err(Error::MissingType(id)),
        Some(TypeDefView::Other) => Err(Error::TypeDefNotVariant(id)),
        Some(TypeDefView::Variant(variants)) => Ok(events_of(variants)),
    }
}

/// The modules of `pallets` that have events, by index. Of several with one index the last
/// counts; the first whose events cannot be told decides the error.
pub open spec fn event_catalogue(pallets: Seq<ResolvedPalletView>) -> Result<
    Map<u8, ModuleWithEventsView>,
    Error,
>
    decreases pallets.len(),
{
    if pallets.len() == 0 {
        Ok(Map::empty())
    } else {
        match event_catalogue(pallets.drop_last()) {
            Err(e) => Err(e),
            Ok(modules) => match pallets.last().event {
                None => Ok(modules),
                Some((id, found)) => match events_of_type(id, found) {
                    Err(e) => Err(e),
                    Ok(events) => Ok(
                        modules.insert(
                            pallets.last().index,
                            ModuleWithEventsView { name: pallets.last().name, events },
                        ),
                    ),
                },
            },
        }
    }
}

/// The catalogue of a runtime with the given pallets, or what is wrong with them.
pub open spec fn catalogued(
    runtime: RuntimeMetadataLastVersion,
    pallets: Seq<ResolvedPalletView>,
) -> Result<MetadataView, Error> {
    match event_catalogue(pallets) {
        Err(e) => Err(e),
        Ok(events) => Ok(
            MetadataView {
                runtime,
                modules: module_catalogue(pallets),
                modules_with_events: events,
            },
        ),
    }
}

/// A pallet with the type of its events looked up in `types`.
pub open spec fn resolved(
    types: Map<u32, TypeDefView>,
    pallet: PalletMetadataView,
) -> ResolvedPalletView {
    ResolvedPalletView {
        name: pallet.name,
        index: pallet.index,
        event: match pallet.event {
            None => None,
            Some(id) => Some(
                (
                    id,
                    if types.contains_key(id) {
                        Some(types[id])
                    } else {
                        None
                    },
                ),
            ),
        },
    }
}

/// Pallets with the types of their events looked up in `types`.
pub open spec fn resolved_all(
    types: Map<u32, TypeDefView>,
    pallets: Seq<PalletMetadataView>,
) -> Seq<ResolvedPalletView> {
    pallets.map_values(|p: PalletMetadataView| resolved(types, p))
}

/// The catalogue that prefixed metadata gives, or what is wrong with it.
pub open spec fn catalogued_prefixed(metadata: RuntimeMetadataPrefixed) -> Result<
    MetadataView,
    Error,
> {
    if metadata.0 != META_RESERVED {
        Err(Error::InvalidPrefix)
    } else {
        match metadata.1 {
            RuntimeMetadata::Other => Err(Error::InvalidVersion),
            RuntimeMetadata::V14(runtime) => catalogued(
                runtime,
                resolved_all(types_in(runtime), pallets_in(runtime)),
            ),
        }
    }
}

/// The modules that runtime metadata holds, in its order.
pub uninterp spec fn pallets_in(runtime: RuntimeMetadataLastVersion) -> Seq<PalletMetadataView>;

/// The types that runtime metadata holds, by number: the place of each in its list.
pub uninterp spec fn types_in(runtime: RuntimeMetadataLastVersion) -> Map<u32, TypeDefView>;

/// What `frame_metadata::RuntimeMetadataPrefixed::decode` reads from a byte string, or the
/// text of its error.
pub uninterp spec fn decoded_metadata(encoded: Seq<u8>) -> Result<
    RuntimeMetadataPrefixed,
    Seq<char>,
>;

/// Calls `frame_metadata::RuntimeMetadataPrefixed::decode`. What it reads, and the text of
/// the error where it cannot, depend on the bytes alone.
#[verifier::external_body]
pub(crate) fn decode_metadata(encoded: &[u8]) -> (result: Result<RuntimeMetadataPrefixed, String>)
    ensures
        match result {
            Ok(metadata) => decoded_metadata(encoded@) == Ok::<
                RuntimeMetadataPrefixed,
                Seq<char>,
            >(metadata),
            Err(text) => decoded_metadata(encoded@) == Err::<RuntimeMetadataPrefixed, Seq<char>>(
                text@,
            ),
        },
{
    let found = frame_metadata::RuntimeMetadataPrefixed::decode(&mut &encoded[..]);
    match found.map_err(|e| e.to_string())? {
        frame_metadata::RuntimeMetadataPrefixed(prefix, frame_metadata::RuntimeMetadata::V14(runtime)) =>
            Ok(RuntimeMetadataPrefixed(prefix, RuntimeMetadata::V14(runtime))),
        frame_metadata::RuntimeMetadataPrefixed(prefix, _) =>
            Ok(RuntimeMetadataPrefixed(prefix, RuntimeMetadata::Other)),
    }
}

/// Reads the field `pallets` of `frame_metadata::RuntimeMetadataLastVersion`: every module
/// that it holds, in order, each with its name, its index and the number of its event type.
#[verifier::external_body]
fn pallets_of(runtime: &RuntimeMetadataLastVersion) -> (pallets: Vec<PalletMetadata>)
    ensures
        pallet_views(pallets@) == pallets_in(*runtime),
{
    runtime.pallets.iter().map(|p| PalletMetadata {
        name: p.name.clone(),
        event: p.event.as_ref().map(|e| e.ty.id),
        index: p.index,
    }).collect()
}

/// Calls `scale_info::PortableRegistry::resolve`, which gives the type with number `id`, that
/// is the one at place `id` of the runtime's list of types, or `None` where the list is not
/// that long. A type that is made of variants comes with all of them, in order, and each
/// variant with all that it says: its name, fields, index and documentation. A field is read
/// from its SCALE encoding, which `parity_scale_codec` makes and reads: its name, the number
/// of its type, the text of its type and its documentation, one after the other.
#[verifier::external_body]
fn resolve(runtime: &RuntimeMetadataLastVersion, id: u32) -> (found: Option<TypeDef>)
    ensures
        match found {
            Some(def) => types_in(*runtime).contains_key(id) && types_in(*runtime)[id] == def@,
            None => !types_in(*runtime).contains_key(id),
        },
{
    runtime.types.resolve(id).map(|ty| match &ty.type_def {
        scale_info::TypeDef::Variant(def) => TypeDef::Variant(def.variants.iter().map(|v| Variant {
            name: v.name.clone(),
            fields: v.fields.iter().map(|f| {
                let (name, Compact(ty), type_text, docs): (_, Compact<u32>, _, _) =
                    Decode::decode(&mut &f.encode()[..]).unwrap();
                Field { name, ty, type_text, docs }
            }).collect(),
            index: v.index,
            docs: v.docs.clone(),
        }).collect()),
        _ => TypeDef::Other,
    })
}

/// Calls the `clone` of `frame_metadata::RuntimeMetadataLastVersion`: the copy is equal to
/// what was copied.
#[verifier::external_body]
fn clone_runtime_metadata(runtime: &RuntimeMetadataLastVersion) -> (copy: RuntimeMetadataLastVersion)
    ensures
        copy == *runtime,
{
    runtime.clone()
}

/// Copies of `strings`, in the same order.
fn clone_texts(strings: &Vec<String>) -> (copies: Vec<String>)
    ensures
        texts(copies@) == texts(strings@),
{
    let copies = strings.clone();
    proof {
        assert(texts(copies@) =~= texts(strings@));
    }
    copies
}

/// The pallets of `runtime` with the types of their events.
fn resolved_pallets(runtime: &RuntimeMetadataLastVersion) -> (pallets: Vec<ResolvedPallet>)
    ensures
        resolved_views(pallets@) == resolved_all(types_in(*runtime), pallets_in(*runtime)),
{
    let pallets = pallets_of(runtime);
    let mut done: Vec<ResolvedPallet> = Vec::new();
    let mut i: usize = 0;
    while i < pallets.len()
        invariant
            i <= pallets.len(),
            done.len() == i,
            pallet_views(pallets@) == pallets_in(*runtime),
            forall|j: int|
                0 <= j < i ==> (#[trigger] done@[j])@ == resolved(types_in(*runtime), pallets@[j]@),
        decreases pallets.len() - i,
    {
        let pallet: &PalletMetadata = &pallets[i];
        let event = match pallet.event {
            Some(id) => Some((id, resolve(runtime, id))),
            None => None,
        };
        done.push(ResolvedPallet { name: pallet.name.clone(), index: pallet.index, event });
        i = i + 1;
    }
    proof {
        assert forall|j: int| 0 <= j < pallets@.len() implies pallets_in(*runtime)[j] == (
        #[trigger] pallets@[j])@ by {
            assert(pallet_views(pallets@)[j] == pallets@[j]@);
        }
        assert(pallet_views(pallets@).len() == pallets@.len());
        assert(resolved_views(done@) =~= resolved_all(types_in(*runtime), pallets_in(*runtime)));
    }
    done
}

/// The events that the variants of a type are.
fn events_from(variants: Vec<Variant>) -> (events: Vec<ModuleEventMetadata>)
    ensures
        event_views(events@) == events_of(variant_views(variants@)),
        events@.len() == variants@.len(),
        forall|i: int|
            0 <= i < events@.len() ==> (#[trigger] events@[i])@.name == variants@[i].name@
                && events@[i]@.variant == variants@[i]@,
{
    let mut events: Vec<ModuleEventMetadata> = Vec::new();
    for variant in it: variants
        invariant
            it.seq() == variants@,
            events.len() == it.index(),
            forall|j: int|
                0 <= j < it.index() ==> (#[trigger] events@[j])@ == (ModuleEventMetadataView {
                    name: variants@[j].name@,
                    variant: variants@[j]@,
                }),
    {
        events.push(ModuleEventMetadata { name: variant.name.clone(), variant });
    }
    proof {
        assert(event_views(events@) =~= events_of(variant_views(variants@)));
    }
    events
}

/// The events of the type that was found under the number `type_id`.
fn get_type_def_variant(type_id: u32, found: Option<TypeDef>) -> (result: Result<
    Vec<ModuleEventMetadata>,
    Error,
>)
    ensures
        match events_of_type(
            type_id,
            match found {
                Some(def) => Some(def@),
                None => None,
            },
        ) {
            Ok(events) => result matches Ok(list) && event_views(list@) == events,
            Err(e) => result == Err::<Vec<ModuleEventMetadata>, Error>(e),
        },
{
    match found {
        None => Err(Error::MissingType(type_id)),
        Some(TypeDef::Other) => Err(Error::TypeDefNotVariant(type_id)),
        Some(TypeDef::Variant(variants)) => Ok(events_from(variants)),
    }
}

impl Metadata {
    /// The module with index `idx`.
    pub fn module(&self, idx: u8) -> (result: Result<&Module, Error>)
        ensures
            if self@.modules.contains_key(idx) {
                result matches Ok(module) && module@ == self@.modules[idx]
            } else {
                result == Err::<&Module, Error>(Error::ModuleNotFound(idx))
            },
    {
        broadcast use vstd::std_specs::hash::group_hash_axioms;

        match self.modules.get(&idx) {
            Some(module) => Ok(module),
            None => Err(Error::ModuleNotFound(idx)),
        }
    }

    /// The modules that have events, by index.
    pub fn modules_with_events(&self) -> (modules: &HashMap<u8, ModuleWithEvents>)
        ensures
            with_events_views(modules@) == self@.modules_with_events,
            modules@.dom() == self@.modules_with_events.dom(),
            forall|idx: u8| #[trigger]
                modules@.contains_key(idx) ==> modules@[idx]@ == self@.modules_with_events[idx],
    {
        &self.modules_with_events
    }

    /// The module with index `idx`, if it has events.
    pub fn module_with_events(&self, idx: u8) -> (result: Result<&ModuleWithEvents, Error>)
        ensures
            if self@.modules_with_events.contains_key(idx) {
                result matches Ok(module) && module@ == self@.modules_with_events[idx]
            } else {
                result == Err::<&ModuleWithEvents, Error>(Error::ModuleNotFound(idx))
            },
    {
        broadcast use vstd::std_specs::hash::group_hash_axioms;

        match self.modules_with_events.get(&idx) {
            Some(module) => Ok(module),
            None => Err(Error::ModuleNotFound(idx)),
        }
    }

    /// Return the runtime metadata.
    pub fn runtime_metadata(&self) -> (metadata: &RuntimeMetadataLastVersion)
        ensures
            *metadata == self@.runtime,
    {
        &self.metadata
    }

    /// Makes the catalogue of a runtime from its pallets, whose event types have been looked
    /// up.
    pub fn from_pallets(
        runtime: RuntimeMetadataLastVersion,
        pallets: Vec<ResolvedPallet>,
    ) -> (result: Result<Metadata, Error>)
        ensures
            match catalogued(runtime, resolved_views(pallets@)) {
                Ok(view) => result matches Ok(found) && found@ == view,
                Err(e) => result == Err::<Metadata, Error>(e),
            },
    {
        broadcast use vstd::std_specs::hash::group_hash_axioms;

        let mut modules: HashMap<u8, Module> = HashMap::new();
        let mut modules_with_events: HashMap<u8, ModuleWithEvents> = HashMap::new();
        let ghost all = resolved_views(pallets@);
        proof {
            assert(all.subrange(0, 0) =~= Seq::empty());
            assert(module_views(modules@) =~= Map::empty());
            assert(with_events_views(modules_with_events@) =~= Map::empty());
        }
        for pallet in it: pallets
            invariant
                it.seq() == pallets@,
                all == resolved_views(pallets@),
                module_views(modules@) == module_catalogue(all.subrange(0, it.index())),
                event_catalogue(all.subrange(0, it.index())) == Ok::<
                    Map<u8, ModuleWithEventsView>,
                    Error,
                >(with_events_views(modules_with_events@)),
        {
            let ghost i = it.index();
            let ghost upto = all.subrange(0, i + 1);
            proof {
                assert(upto.drop_last() =~= all.subrange(0, i));
                assert(upto.last() == pallet@);
            }
            let module = Module { name: pallet.name.clone(), storage: Vec::new() };
            let ghost modules_before = modules@;
            modules.insert(pallet.index, module);
            proof {
                assert(module_views(modules@) =~= module_views(modules_before).insert(
                    pallet.index,
                    module@,
                ));
            }
            if let Some((id, found)) = pallet.event {
                match get_type_def_variant(id, found) {
                    Ok(events) => {
                        let with_events = ModuleWithEvents { name: pallet.name, events };
                        let ghost before = modules_with_events@;
                        modules_with_events.insert(pallet.index, with_events);
                        proof {
                            assert(with_events_views(modules_with_events@) =~= with_events_views(
                                before,
                            ).insert(pallet.index, with_events@));
                        }
                    },
                    Err(e) => {
                        proof {
                            lemma_event_catalogue_prefix_error(all, i + 1);
                        }
                        return Err(e);
                    },
                }
            }
        }
        proof {
            assert(all.subrange(0, all.len() as int) =~= all);
        }
        Ok(Metadata { metadata: runtime, modules, modules_with_events })
    }
}

impl TryFrom<RuntimeMetadataPrefixed> for Metadata {
    type Error = Error;

    /// Makes the catalogue of modules and events.
    fn try_from(metadata: RuntimeMetadataPrefixed) -> (result: Result<Metadata, Error>)
        ensures
            match catalogued_prefixed(metadata) {
                Ok(view) => result matches Ok(found) && found@ == view,
                Err(e) => result == Err::<Metadata, Error>(e),
            },
    {
        if metadata.0 != META_RESERVED {
            return Err(Error::InvalidPrefix);
        }
        match metadata.1 {
            RuntimeMetadata::V14(runtime) => {
                let pallets = resolved_pallets(&runtime);
                Metadata::from_pallets(runtime, pallets)
            },
            RuntimeMetadata::Other => Err(Error::InvalidVersion),
        }
    }
}

impl TryFromSpecImpl<RuntimeMetadataPrefixed> for Metadata {
    /// A catalogue is described by its view alone, and `try_from` by what it ensures.
    open spec fn obeys_try_from_spec() -> bool {
        false
    }

    open spec fn try_from_spec(metadata: RuntimeMetadataPrefixed) -> Result<Metadata, Error> {
        arbitrary()
    }
}

/// An error among the first pallets is the error of all of them.
proof fn lemma_event_catalogue_prefix_error(pallets: Seq<ResolvedPalletView>, k: int)
    requires
        0 <= k <= pallets.len(),
        event_catalogue(pallets.subrange(0, k)) is Err,
    ensures
        event_catalogue(pallets) == event_catalogue(pallets.subrange(0, k)),
    decreases pallets.len() - k,
{
    if k == pallets.len() {
        assert(pallets.subrange(0, k) =~= pallets);
    } else {
        assert(pallets.subrange(0, k + 1).drop_last() =~= pallets.subrange(0, k));
        lemma_event_catalogue_prefix_error(pallets, k + 1);
    }
}

impl Clone for Metadata {
    fn clone(&self) -> (copy: Self)
        ensures
            copy@ == self@,
    {
        Metadata {
            metadata: clone_runtime_metadata(&self.metadata),
            modules: self.modules.clone(),
            modules_with_events: self.modules_with_events.clone(),
        }
    }
}

impl Clone for Module {
    fn clone(&self) -> (copy: Self)
        ensures
            copy@ == self@,
    {
        Module { name: self.name.clone(), storage: self.storage.clone() }
    }
}

impl Default for Module {
    fn default() -> (module: Self)
        ensures
            module@ == (ModuleView { name: Seq::empty(), storage: 0 }),
    {
        Module { name: String::new(), storage: Vec::new() }
    }
}

impl Module {
    /// The name of the module.
    pub fn name(&self) -> (name: &str)
        ensures
            name@ == self@.name,
    {
        self.name.as_str()
    }

    /// The storage item at `idx`.
    pub fn storage(&self, idx: u8) -> (result: Result<(), Error>)
        ensures
            result == (if idx < self@.storage {
                Ok::<(), Error>(())
            } else {
                Err(Error::StorageNotFound(idx))
            }),
    {
        if (idx as usize) < self.storage.len() {
            Ok(())
        } else {
            Err(Error::StorageNotFound(idx))
        }
    }
}

impl Clone for ModuleWithEvents {
    fn clone(&self) -> (copy: Self)
        ensures
            copy@ == self@,
    {
        let events = self.events.clone();
        proof {
            assert(event_views(events@) =~= event_views(self.events@));
        }
        ModuleWithEvents { name: self.name.clone(), events }
    }
}

impl Default for ModuleWithEvents {
    fn default() -> (module: Self)
        ensures
            module@ == (ModuleWithEventsView { name: Seq::empty(), events: Seq::empty() }),
    {
        let module = ModuleWithEvents { name: String::new(), events: Vec::new() };
        proof {
            assert(module@.events =~= Seq::empty());
        }
        module
    }
}

impl ModuleWithEvents {
    /// The name of the module.
    pub fn name(&self) -> (name: &str)
        ensures
            name@ == self@.name,
    {
        self.name.as_str()
    }

    /// The event at `idx`.
    pub fn event(&self, idx: u8) -> (result: Result<&ModuleEventMetadata, Error>)
        ensures
            if idx < self@.events.len() {
                result matches Ok(event) && event@ == self@.events[idx as int]
            } else {
                result == Err::<&ModuleEventMetadata, Error>(Error::EventNotFound(idx))
            },
    {
        if (idx as usize) < self.events.len() {
            Ok(&self.events[idx as usize])
        } else {
            Err(Error::EventNotFound(idx))
        }
    }

    /// The events of the module.
    pub fn events(&self) -> (events: &Vec<ModuleEventMetadata>)
        ensures
            event_views(events@) == self@.events,
            events@.len() == self@.events.len(),
            forall|i: int| 0 <= i < events@.len() ==> (#[trigger] events@[i])@ == self@.events[i],
    {
        &self.events
    }
}

impl Clone for ModuleEventMetadata {
    fn clone(&self) -> (copy: Self)
        ensures
            copy@ == self@,
    {
        ModuleEventMetadata { name: self.name.clone(), variant: self.variant.clone() }
    }
}

impl Clone for Variant {
    fn clone(&self) -> (copy: Self)
        ensures
            copy@ == self@,
    {
        let fields = self.fields.clone();
        proof {
            assert(field_views(fields@) =~= field_views(self.fields@));
        }
        Variant {
            name: self.name.clone(),
            fields,
            index: self.index,
            docs: clone_texts(&self.docs),
        }
    }
}

impl Clone for Field {
    fn clone(&self) -> (copy: Self)
        ensures
            copy@ == self@,
    {
        Field {
            name: self.name.clone(),
            ty: self.ty,
            type_text: self.type_text.clone(),
            docs: clone_texts(&self.docs),
        }
    }
}

impl ModuleEventMetadata {
    /// The name of the event.
    pub fn name(&self) -> (name: &str)
        ensures
            name@ == self@.name,
    {
        self.name.as_str()
    }

    /// Get the type def variant for the pallet event.
    pub fn variant(&self) -> (variant: &Variant)
        ensures
            variant@ == self@.variant,
    {
        &self.variant
    }
}

/// Whether the pallet at `k` is the last one with its index.
pub open spec fn is_last_with_index(pallets: Seq<ResolvedPalletView>, k: int) -> bool {
    &&& 0 <= k < pallets.len()
    &&& forall|j: int| k < j < pallets.len() ==> (#[trigger] pallets[j]).index != pallets[k].index
}

/// Whether the pallet at `k` is the last one with its index that has events.
pub open spec fn is_last_with_events(pallets: Seq<ResolvedPalletView>, k: int) -> bool {
    &&& 0 <= k < pallets.len()
    &&& pallets[k].event is Some
    &&& forall|j: int|
        k < j < pallets.len() && (#[trigger] pallets[j]).event is Some ==> pallets[j].index
            != pallets[k].index
}

/// The events of a pallet, or why they cannot be told. A pallet without events has none.
pub open spec fn events_of_pallet(pallet: ResolvedPalletView) -> Result<
    Seq<ModuleEventMetadataView>,
    Error,
> {
    match pallet.event {
        None => Ok(Seq::empty()),
        Some((id, found)) => events_of_type(id, found),
    }
}

/// The modules are those of the pallets: each pallet is found under its index, unless a later
/// one has the same index, and nothing else is found.
pub proof fn law_modules_are_the_pallets(pallets: Seq<ResolvedPalletView>)
    ensures
        forall|k: int| #[trigger]
            is_last_with_index(pallets, k) ==> module_catalogue(pallets).contains_key(
                pallets[k].index,
            ) && module_catalogue(pallets)[pallets[k].index] == (ModuleView {
                name: pallets[k].name,
                storage: 0,
            }),
        forall|index: u8| #[trigger]
            module_catalogue(pallets).contains_key(index) ==> exists|k: int| #[trigger]
                is_last_with_index(pallets, k) && pallets[k].index == index,
    decreases pallets.len(),
{
    if pallets.len() > 0 {
        let before = pallets.drop_last();
        law_modules_are_the_pallets(before);
        assert forall|k: int| #[trigger] is_last_with_index(pallets, k) implies module_catalogue(
            pallets,
        ).contains_key(pallets[k].index) && module_catalogue(pallets)[pallets[k].index] == (
        ModuleView { name: pallets[k].name, storage: 0 }) by {
            if k < before.len() {
                assert(pallets[before.len() as int].index != pallets[k].index);
                assert forall|j: int| k < j < before.len() implies (#[trigger] before[j]).index
                    != before[k].index by {
                    assert(pallets[j].index != pallets[k].index);
                }
                assert(is_last_with_index(before, k));
            }
        }
        assert forall|index: u8| #[trigger]
            module_catalogue(pallets).contains_key(index) implies exists|k: int| #[trigger]
            is_last_with_index(pallets, k) && pallets[k].index == index by {
            if index == pallets.last().index {
                assert(is_last_with_index(pallets, before.len() as int));
            } else {
                assert(module_catalogue(before).contains_key(index));
                let k = choose|k: int| #[trigger]
                    is_last_with_index(before, k) && before[k].index == index;
                assert forall|j: int| k < j < pallets.len() implies (#[trigger] pallets[j]).index
                    != pallets[k].index by {
                    if j < before.len() {
                        assert(before[j].index != before[k].index);
                    }
                }
                assert(is_last_with_index(pallets, k));
            }
        }
    }
}

/// There is a catalogue of events if and only if the events of every pallet can be told; if
/// not, the error is that of the first pallet whose events cannot be told.
pub proof fn law_first_unknown_events_decide(pallets: Seq<ResolvedPalletView>)
    ensures
        event_catalogue(pallets) is Ok <==> forall|k: int|
            0 <= k < pallets.len() ==> events_of_pallet(#[trigger] pallets[k]) is Ok,
        event_catalogue(pallets) matches Err(e) ==> exists|k: int|
            {
                &&& 0 <= k < pallets.len()
                &&& events_of_pallet(#[trigger] pallets[k]) == Err::<
                    Seq<ModuleEventMetadataView>,
                    Error,
                >(e)
                &&& forall|j: int| 0 <= j < k ==> events_of_pallet(#[trigger] pallets[j]) is Ok
            },
    decreases pallets.len(),
{
    if pallets.len() > 0 {
        let before = pallets.drop_last();
        law_first_unknown_events_decide(before);
        assert(forall|j: int| 0 <= j < before.len() ==> before[j] == #[trigger] pallets[j]);
        assert(pallets[before.len() as int] == pallets.last());
        match event_catalogue(before) {
            Err(e) => {
                let k = choose|k: int|
                    {
                        &&& 0 <= k < before.len()
                        &&& events_of_pallet(#[trigger] before[k]) == Err::<
                            Seq<ModuleEventMetadataView>,
                            Error,
                        >(e)
                        &&& forall|j: int|
                            0 <= j < k ==> events_of_pallet(#[trigger] before[j]) is Ok
                    };
                assert(events_of_pallet(pallets[k]) is Err);
                assert forall|j: int| 0 <= j < k implies events_of_pallet(
                    #[trigger] pallets[j],
                ) is Ok by {
                    assert(events_of_pallet(before[j]) is Ok);
                }
            },
            Ok(_) => {
                assert forall|j: int| 0 <= j < before.len() implies events_of_pallet(
                    #[trigger] pallets[j],
                ) is Ok by {
                    assert(events_of_pallet(before[j]) is Ok);
                }
            },
        }
    }
}

/// In a catalogue, the modules with events are the pallets that have events: each is found
/// under its index with its own events, unless a later one with events has the same index,
/// and nothing else is found.
pub proof fn law_event_modules_are_the_pallets_with_events(pallets: Seq<ResolvedPalletView>)
    requires
        event_catalogue(pallets) is Ok,
    ensures
        forall|k: int| #[trigger]
            is_last_with_events(pallets, k) ==> {
                &&& event_catalogue(pallets)->Ok_0.contains_key(pallets[k].index)
                &&& event_catalogue(pallets)->Ok_0[pallets[k].index].name == pallets[k].name
                &&& events_of_pallet(pallets[k]) == Ok::<_, Error>(
                    event_catalogue(pallets)->Ok_0[pallets[k].index].events,
                )
            },
        forall|index: u8| #[trigger]
            event_catalogue(pallets)->Ok_0.contains_key(index) ==> exists|k: int| #[trigger]
                is_last_with_events(pallets, k) && pallets[k].index == index,
    decreases pallets.len(),
{
    if pallets.len() > 0 {
        let before = pallets.drop_last();
        let last = before.len() as int;
        law_event_modules_are_the_pallets_with_events(before);
        assert forall|k: int| #[trigger] is_last_with_events(pallets, k) implies {
            &&& event_catalogue(pallets)->Ok_0.contains_key(pallets[k].index)
            &&& event_catalogue(pallets)->Ok_0[pallets[k].index].name == pallets[k].name
            &&& events_of_pallet(pallets[k]) == Ok::<_, Error>(
                event_catalogue(pallets)->Ok_0[pallets[k].index].events,
            )
        } by {
            if k < last {
                assert(pallets[last].event is Some ==> pallets[last].index != pallets[k].index);
                assert forall|j: int|
                    k < j < before.len() && (#[trigger] before[j]).event
                        is Some implies before[j].index != before[k].index by {
                    assert(pallets[j].index != pallets[k].index);
                }
                assert(is_last_with_events(before, k));
            }
        }
        assert forall|index: u8| #[trigger]
            event_catalogue(pallets)->Ok_0.contains_key(index) implies exists|k: int| #[trigger]
            is_last_with_events(pallets, k) && pallets[k].index == index by {
            if pallets.last().event is Some && index == pallets.last().index {
                assert(is_last_with_events(pallets, last));
            } else {
                assert(event_catalogue(before)->Ok_0.contains_key(index));
                let k = choose|k: int| #[trigger]
                    is_last_with_events(before, k) && before[k].index == index;
                assert forall|j: int|
                    k < j < pallets.len() && (#[trigger] pallets[j]).event
                        is Some implies pallets[j].index != pallets[k].index by {
                    if j < last {
                        assert(before[j].index != before[k].index);
                    }
                }
                assert(is_last_with_events(pallets, k));
            }
        }
    }
}

/// Every module that has events is a module.
pub proof fn law_event_modules_are_modules(
    runtime: RuntimeMetadataLastVersion,
    pallets: Seq<ResolvedPalletView>,
)
    requires
        catalogued(runtime, pallets) is Ok,
    ensures
        catalogued(runtime, pallets)->Ok_0.modules_with_events.dom().subset_of(
            catalogued(runtime, pallets)->Ok_0.modules.dom(),
        ),
    decreases pallets.len(),
{
    if pallets.len() > 0 {
        law_event_modules_are_modules(runtime, pallets.drop_last());
    }
}

/// A list stands for its members, one by one: none is left out, added or moved.
pub proof fn law_lists_stand_for_their_members(
    events: Seq<ModuleEventMetadata>,
    variants: Seq<Variant>,
    fields: Seq<Field>,
    pallets: Seq<PalletMetadata>,
    found: Seq<ResolvedPallet>,
)
    ensures
        event_views(events).len() == events.len(),
        forall|i: int| 0 <= i < events.len() ==> #[trigger] event_views(events)[i] == events[i]@,
        variant_views(variants).len() == variants.len(),
        forall|i: int|
            0 <= i < variants.len() ==> #[trigger] variant_views(variants)[i] == variants[i]@,
        field_views(fields).len() == fields.len(),
        forall|i: int| 0 <= i < fields.len() ==> #[trigger] field_views(fields)[i] == fields[i]@,
        pallet_views(pallets).len() == pallets.len(),
        forall|i: int|
            0 <= i < pallets.len() ==> #[trigger] pallet_views(pallets)[i] == pallets[i]@,
        resolved_views(found).len() == found.len(),
        forall|i: int| 0 <= i < found.len() ==> #[trigger] resolved_views(found)[i] == found[i]@,
{
}

/// A table stands for its entries, one by one.
pub proof fn law_tables_stand_for_their_entries(
    modules: Map<u8, Module>,
    with_events: Map<u8, ModuleWithEvents>,
)
    ensures
        module_views(modules).dom() == modules.dom(),
        forall|idx: u8| #[trigger]
            modules.contains_key(idx) ==> module_views(modules)[idx] == modules[idx]@,
        with_events_views(with_events).dom() == with_events.dom(),
        forall|idx: u8| #[trigger]
            with_events.contains_key(idx) ==> with_events_views(with_events)[idx]
                == with_events[idx]@,
{
}

/// What pallets, types, variants and fields stand for is all that they hold.
pub proof fn law_views_hold_everything(
    pallet: PalletMetadata,
    found: ResolvedPallet,
    variants: Vec<Variant>,
    variant: Variant,
    field: Field,
)
    ensures
        pallet@.name == pallet.name@,
        pallet@.event == pallet.event,
        pallet@.index == pallet.index,
        found@.name == found.name@,
        found@.index == found.index,
        match found.event {
            None => found@.event is None,
            Some((id, None)) => found@.event == Some((id, None::<TypeDefView>)),
            Some((id, Some(def))) => found@.event == Some((id, Some(def@))),
        },
        TypeDef::Other@ == TypeDefView::Other,
        TypeDef::Variant(variants)@ matches TypeDefView::Variant(list) && list.len()
            == variants@.len() && forall|i: int|
            0 <= i < variants@.len() ==> #[trigger] list[i] == variants@[i]@,
        variant@.name == variant.name@,
        variant@.index == variant.index,
        variant@.fields.len() == variant.fields@.len(),
        forall|i: int|
            0 <= i < variant.fields@.len() ==> #[trigger] variant@.fields[i] == variant.fields@[i]@,
        variant@.docs.len() == variant.docs@.len(),
        forall|i: int|
            0 <= i < variant.docs@.len() ==> #[trigger] variant@.docs[i] == variant.docs@[i]@,
        field@.ty == field.ty,
        match field.name {
            Some(name) => field@.name == Some(name@),
            None => field@.name is None,
        },
        match field.type_text {
            Some(text) => field@.type_text == Some(text@),
            None => field@.type_text is None,
        },
        field@.docs.len() == field.docs@.len(),
        forall|i: int|
            0 <= i < field.docs@.len() ==> #[trigger] field@.docs[i] == field.docs@[i]@,
{
}

/// The events of a type are its variants: as many, and the event at a place is the variant at
/// that place, under its name. A type that is not made of variants has none, and neither has
/// a type that was not found.
pub proof fn law_events_are_the_variants(id: u32, variants: Seq<VariantView>)
    ensures
        events_of_type(id, Some(TypeDefView::Variant(variants))) matches Ok(events)
            && events.len() == variants.len() && forall|i: int|
            0 <= i < variants.len() ==> (#[trigger] events[i]).name == variants[i].name
                && events[i].variant == variants[i],
        events_of_type(id, Some(TypeDefView::Other)) == Err::<Seq<ModuleEventMetadataView>, Error>(
            Error::TypeDefNotVariant(id),
        ),
        events_of_type(id, None) == Err::<Seq<ModuleEventMetadataView>, Error>(
            Error::MissingType(id),
        ),
{
}

/// Whether a pallet has no events, or they are of a type that was found and has variants.
pub open spec fn has_known_events(pallet: ResolvedPalletView) -> bool {
    match pallet.event {
        None => true,
        Some((_, Some(TypeDefView::Variant(_)))) => true,
        _ => false,
    }
}

/// Whether `module` is the pallet with all of its events.
pub open spec fn is_pallet_with_events(
    module: ModuleWithEventsView,
    pallet: ResolvedPalletView,
) -> bool {
    &&& module.name == pallet.name
    &&& pallet.event matches Some((_, Some(TypeDefView::Variant(variants)))) && module.events.len()
        == variants.len() && forall|i: int|
        0 <= i < variants.len() ==> (#[trigger] module.events[i]).name == variants[i].name
            && module.events[i].variant == variants[i]
}

/// The catalogue of a runtime is made of all its pallets. There is one if and only if the
/// events of every pallet are known; else the first pallet whose events are not decides the
/// error, which names the number of its event type. The catalogue keeps the runtime. Each
/// pallet is a module under its index, and each pallet with events a module with one event
/// for each variant of its event type, in order, under the name of the variant. Where two
/// have one index, the later one counts. There are no other modules.
pub proof fn law_catalogue_is_made_of_the_pallets(
    runtime: RuntimeMetadataLastVersion,
    pallets: Seq<ResolvedPalletView>,
)
    ensures
        catalogued(runtime, pallets) is Ok <==> forall|k: int|
            0 <= k < pallets.len() ==> has_known_events(#[trigger] pallets[k]),
        catalogued(runtime, pallets) matches Err(error) ==> exists|k: int|
            {
                &&& 0 <= k < pallets.len()
                &&& !has_known_events(#[trigger] pallets[k])
                &&& error == match pallets[k].event->0 {
                    (id, None) => Error::MissingType(id),
                    (id, Some(_)) => Error::TypeDefNotVariant(id),
                }
                &&& forall|j: int| 0 <= j < k ==> has_known_events(#[trigger] pallets[j])
            },
        catalogued(runtime, pallets) matches Ok(view) ==> {
            &&& view.runtime == runtime
            &&& forall|k: int| #[trigger]
                is_last_with_index(pallets, k) ==> view.modules.contains_key(pallets[k].index)
                    && view.modules[pallets[k].index].name == pallets[k].name
                    && view.modules[pallets[k].index].storage == 0
            &&& forall|index: u8| #[trigger]
                view.modules.contains_key(index) ==> exists|k: int|
                    0 <= k < pallets.len() && (#[trigger] pallets[k]).index == index
            &&& forall|k: int| #[trigger]
                is_last_with_events(pallets, k) ==> view.modules_with_events.contains_key(
                    pallets[k].index,
                ) && is_pallet_with_events(
                    view.modules_with_events[pallets[k].index],
                    pallets[k],
                )
            &&& forall|index: u8| #[trigger]
                view.modules_with_events.contains_key(index) ==> exists|k: int|
                    0 <= k < pallets.len() && (#[trigger] pallets[k]).index == index
                        && pallets[k].event is Some
        },
{
    law_modules_are_the_pallets(pallets);
    law_first_unknown_events_decide(pallets);
    assert forall|k: int| 0 <= k < pallets.len() implies has_known_events(#[trigger] pallets[k])
        == events_of_pallet(pallets[k]) is Ok by {}
    match catalogued(runtime, pallets) {
        Err(error) => {
            let k = choose|k: int|
                {
                    &&& 0 <= k < pallets.len()
                    &&& events_of_pallet(#[trigger] pallets[k]) == Err::<
                        Seq<ModuleEventMetadataView>,
                        Error,
                    >(error)
                    &&& forall|j: int| 0 <= j < k ==> events_of_pallet(#[trigger] pallets[j]) is Ok
                };
            assert(!has_known_events(pallets[k]));
        },
        Ok(view) => {
            law_event_modules_are_the_pallets_with_events(pallets);
            assert forall|k: int| #[trigger]
                is_last_with_events(pallets, k) implies view.modules_with_events.contains_key(
                pallets[k].index,
            ) && is_pallet_with_events(
                view.modules_with_events[pallets[k].index],
                pallets[k],
            ) by {
                assert(has_known_events(pallets[k]));
            }
        },
    }
}

/// Looking up the types of events leaves the pallets as they are, in their order, and adds to
/// the number of an event type the type that has it, or none where no type has it.
pub proof fn law_lookup_finds_the_types(
    types: Map<u32, TypeDefView>,
    pallets: Seq<PalletMetadataView>,
)
    ensures
        resolved_all(types, pallets).len() == pallets.len(),
        forall|k: int|
            0 <= k < pallets.len() ==> {
                let found = #[trigger] resolved_all(types, pallets)[k];
                &&& found.name == pallets[k].name
                &&& found.index == pallets[k].index
                &&& match pallets[k].event {
                    None => found.event is None,
                    Some(id) => if types.contains_key(id) {
                        found.event == Some((id, Some(types[id])))
                    } else {
                        found.event == Some((id, None::<TypeDefView>))
                    },
                }
            },
{
}

/// Metadata that does not begin with the reserved number is refused for that, and other
/// metadata for its version where that is not the one that is known. The rest is catalogued
/// with its own pallets, whose event types are looked up among its own types.
pub proof fn law_prefix_and_version_are_checked(metadata: RuntimeMetadataPrefixed)
    ensures
        metadata.0 != 0x6174656d ==> catalogued_prefixed(metadata) == Err::<MetadataView, Error>(
            Error::InvalidPrefix,
        ),
        metadata.0 == 0x6174656d && metadata.1 is Other ==> catalogued_prefixed(metadata) == Err::<
            MetadataView,
            Error,
        >(Error::InvalidVersion),
        metadata.0 == 0x6174656d ==> (metadata.1 matches RuntimeMetadata::V14(runtime)
            ==> catalogued_prefixed(metadata) == catalogued(
            runtime,
            resolved_all(types_in(runtime), pallets_in(runtime)),
        )),
{
}

} // verus!

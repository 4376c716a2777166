use frame_metadata::{ExtrinsicMetadata, PalletEventMetadata, RuntimeMetadataLastVersion};
use harvester::client::{block_or_finalized, metadata_from_encoded, EncodedMetadataError, InProcess};
use harvester::metadata::{
    Error, EventArg, Metadata, Module, ModuleWithEvents, ResolvedPallet, RuntimeMetadata,
    RuntimeMetadataPrefixed, TypeDef, Variant, META_RESERVED,
};
use parity_scale_codec::{Decode, Encode};
use scale_info::form::PortableForm;
use scale_info::{meta_type, MetaType};
use std::sync::Arc;

fn pallet(name: &'static str, index: u8, event: Option<MetaType>) -> frame_metadata::PalletMetadata {
    frame_metadata::PalletMetadata {
        name,
        storage: None,
        calls: None,
        event: event.map(|ty| PalletEventMetadata { ty }),
        constants: vec![],
        error: None,
        index,
    }
}

fn runtime(pallets: Vec<frame_metadata::PalletMetadata>) -> RuntimeMetadataLastVersion {
    RuntimeMetadataLastVersion::new(
        pallets,
        ExtrinsicMetadata { ty: meta_type::<u8>(), version: 4, signed_extensions: vec![] },
        meta_type::<()>(),
    )
}

fn two_pallets() -> RuntimeMetadataLastVersion {
    runtime(vec![
        pallet("System", 0, Some(meta_type::<Option<u32>>())),
        pallet("Timestamp", 3, None),
        pallet("Balances", 5, Some(meta_type::<Result<u8, bool>>())),
    ])
}

fn catalogue(runtime: RuntimeMetadataLastVersion) -> Result<Metadata, Error> {
    Metadata::try_from(RuntimeMetadataPrefixed(META_RESERVED, RuntimeMetadata::V14(runtime)))
}

fn known(runtime: RuntimeMetadataLastVersion) -> Metadata {
    match catalogue(runtime) {
        Ok(metadata) => metadata,
        Err(e) => panic!("{:?}", e),
    }
}

fn found<T>(result: Result<T, Error>) -> T {
    match result {
        Ok(value) => value,
        Err(e) => panic!("{:?}", e),
    }
}

fn encoded(runtime: RuntimeMetadataLastVersion) -> Vec<u8> {
    frame_metadata::RuntimeMetadataPrefixed(
        META_RESERVED,
        frame_metadata::RuntimeMetadata::V14(runtime),
    )
    .encode()
}

fn plain_variant(name: &str, index: u8) -> Variant {
    Variant { name: name.to_string(), fields: vec![], index, docs: vec![] }
}

fn resolved(name: &str, index: u8, event: Option<(u32, Option<TypeDef>)>) -> ResolvedPallet {
    ResolvedPallet { name: name.to_string(), index, event }
}

#[test]
fn modules_are_found_under_their_index() {
    let metadata = known(two_pallets());
    assert_eq!(found(metadata.module(0)).name(), "System");
    assert_eq!(found(metadata.module(3)).name(), "Timestamp");
    assert_eq!(found(metadata.module(5)).name(), "Balances");
    assert!(matches!(metadata.module(1), Err(Error::ModuleNotFound(1))));
}

#[test]
fn events_are_the_variants_of_the_event_type() {
    let metadata = known(two_pallets());
    let system = found(metadata.module_with_events(0));
    assert_eq!(system.name(), "System");
    assert_eq!(system.events().len(), 2);
    assert_eq!(found(system.event(0)).name(), "None");
    assert_eq!(found(system.event(1)).name(), "Some");
    assert!(matches!(system.event(2), Err(Error::EventNotFound(2))));
    let some = found(system.event(1)).variant();
    assert_eq!(some.name, "Some");
    assert_eq!(some.index, 1);
    assert_eq!(some.fields.len(), 1);
    assert_eq!(some.fields[0].name, None);
    let balances = found(metadata.module_with_events(5));
    assert_eq!(found(balances.event(0)).name(), "Ok");
    assert_eq!(found(balances.event(1)).name(), "Err");
}

#[test]
fn variants_come_with_all_that_they_say() {
    let mut meta = two_pallets();
    let id = match &meta.pallets[0].event {
        Some(event) => event.ty.id,
        None => panic!("no events"),
    };
    if let scale_info::TypeDef::Variant(def) = &mut meta.types.types[id as usize].ty.type_def {
        def.variants[1] = scale_info::Variant::<PortableForm> {
            name: "Transfer".to_string(),
            fields: vec![
                scale_info::Field::<PortableForm>::new(
                    Some("amount".to_string()),
                    70000u32.into(),
                    Some("Option<T::Balance>".to_string()),
                    vec!["how much".to_string(), "".to_string()],
                ),
                scale_info::Field::<PortableForm>::new(None, 3u32.into(), None, vec![]),
            ],
            index: 9,
            docs: vec!["Some funds went.".to_string()],
        };
    }
    let metadata = known(meta);
    let transfer = found(found(metadata.module_with_events(0)).event(1)).variant().clone();
    assert_eq!(transfer.name, "Transfer");
    assert_eq!(transfer.index, 9);
    assert_eq!(transfer.docs, vec!["Some funds went."]);
    assert_eq!(transfer.fields.len(), 2);
    assert_eq!(transfer.fields[0].name, Some("amount".to_string()));
    assert_eq!(transfer.fields[0].ty, 70000);
    assert_eq!(transfer.fields[0].type_text, Some("Option<T::Balance>".to_string()));
    assert_eq!(transfer.fields[0].docs, vec!["how much", ""]);
    let text = transfer.fields[0].type_text.clone().unwrap_or_default();
    match EventArg::from_str(&text) {
        Ok(arg) => assert_eq!(arg.primitives(), vec!["T::Balance"]),
        Err(e) => panic!("{:?}", e),
    }
    assert_eq!(transfer.fields[1].name, None);
    assert_eq!(transfer.fields[1].ty, 3);
    assert_eq!(transfer.fields[1].type_text, None);
    assert_eq!(transfer.fields[1].docs, Vec::<String>::new());
}

#[test]
fn modules_without_events_are_only_modules() {
    let metadata = known(two_pallets());
    assert!(matches!(metadata.module_with_events(3), Err(Error::ModuleNotFound(3))));
    let mut indexes: Vec<u8> = metadata.modules_with_events().keys().cloned().collect();
    indexes.sort();
    assert_eq!(indexes, vec![0, 5]);
    for index in indexes {
        assert_eq!(
            found(metadata.module(index)).name(),
            found(metadata.module_with_events(index)).name()
        );
    }
}

#[test]
fn runtime_metadata_is_kept_whole() {
    let metadata = known(two_pallets());
    assert_eq!(metadata.runtime_metadata(), &two_pallets());
    assert_eq!(metadata.clone().runtime_metadata(), &two_pallets());
}

#[test]
fn cloned_catalogue_holds_the_same() {
    let metadata = known(two_pallets()).clone();
    assert_eq!(found(metadata.module(5)).name(), "Balances");
    assert_eq!(found(found(metadata.module_with_events(0)).event(1)).variant().index, 1);
}

#[test]
fn modules_list_no_storage() {
    let metadata = known(two_pallets());
    assert!(matches!(found(metadata.module(0)).storage(0), Err(Error::StorageNotFound(0))));
    assert!(matches!(found(metadata.module(0)).storage(255), Err(Error::StorageNotFound(255))));
}

#[test]
fn default_modules_are_empty() {
    assert_eq!(Module::default().name(), "");
    assert_eq!(ModuleWithEvents::default().name(), "");
    assert_eq!(ModuleWithEvents::default().events().len(), 0);
}

#[test]
fn wrong_prefix_is_refused() {
    let result =
        Metadata::try_from(RuntimeMetadataPrefixed(7, RuntimeMetadata::V14(two_pallets())));
    assert!(matches!(result, Err(Error::InvalidPrefix)));
    let result = Metadata::try_from(RuntimeMetadataPrefixed(7, RuntimeMetadata::Other));
    assert!(matches!(result, Err(Error::InvalidPrefix)));
}

#[test]
fn other_versions_are_refused() {
    let result =
        Metadata::try_from(RuntimeMetadataPrefixed(META_RESERVED, RuntimeMetadata::Other));
    assert!(matches!(result, Err(Error::InvalidVersion)));
}

#[test]
fn reserved_prefix_is_that_of_runtimes() {
    assert_eq!(META_RESERVED, frame_metadata::META_RESERVED);
}

#[test]
fn unknown_event_type_is_refused() {
    let mut meta = two_pallets();
    if let Some(event) = meta.pallets[2].event.as_mut() {
        event.ty = 9999u32.into();
    }
    assert!(matches!(catalogue(meta), Err(Error::MissingType(9999))));
}

#[test]
fn event_type_without_variants_is_refused() {
    let meta = runtime(vec![pallet("Odd", 1, Some(meta_type::<u64>()))]);
    let id = match &meta.pallets[0].event {
        Some(event) => event.ty.id,
        None => panic!("no events"),
    };
    match catalogue(meta) {
        Err(Error::TypeDefNotVariant(found)) => assert_eq!(found, id),
        other => panic!("{:?}", other),
    }
}

#[test]
fn first_pallet_in_error_decides() {
    let pallets = vec![
        resolved("A", 0, Some((1, Some(TypeDef::Variant(vec![]))))),
        resolved("B", 1, Some((2, Some(TypeDef::Other)))),
        resolved("C", 2, Some((3, None))),
    ];
    let result = Metadata::from_pallets(two_pallets(), pallets);
    assert!(matches!(result, Err(Error::TypeDefNotVariant(2))));
    let pallets = vec![
        resolved("C", 2, Some((3, None))),
        resolved("B", 1, Some((2, Some(TypeDef::Other)))),
    ];
    let result = Metadata::from_pallets(two_pallets(), pallets);
    assert!(matches!(result, Err(Error::MissingType(3))));
}

#[test]
fn later_pallet_takes_over_an_index() {
    let pallets = vec![
        resolved(
            "Old",
            4,
            Some((1, Some(TypeDef::Variant(vec![plain_variant("Went", 9)])))),
        ),
        resolved("New", 4, None),
    ];
    let metadata = found(Metadata::from_pallets(two_pallets(), pallets));
    assert_eq!(found(metadata.module(4)).name(), "New");
    let with_events = found(metadata.module_with_events(4));
    assert_eq!(with_events.name(), "Old");
    assert_eq!(found(with_events.event(0)).name(), "Went");
    assert_eq!(found(with_events.event(0)).variant().index, 9);
}

#[test]
fn runtime_without_pallets_has_no_modules() {
    let metadata = known(runtime(vec![]));
    assert!(matches!(metadata.module(0), Err(Error::ModuleNotFound(0))));
    assert_eq!(metadata.modules_with_events().len(), 0);
}

#[test]
fn encoded_metadata_is_read() {
    match metadata_from_encoded(&encoded(two_pallets())) {
        Ok(metadata) => {
            assert_eq!(metadata.runtime_metadata(), &two_pallets());
            assert_eq!(found(metadata.module(5)).name(), "Balances");
            assert_eq!(found(found(metadata.module_with_events(5)).event(1)).name(), "Err");
        }
        Err(e) => panic!("{:?}", e),
    }
}

#[test]
fn encoded_metadata_may_be_wrong() {
    match metadata_from_encoded(&[1, 2]) {
        Err(EncodedMetadataError::Codec(text)) => {
            let direct = frame_metadata::RuntimeMetadataPrefixed::decode(&mut &[1u8, 2][..]);
            match direct {
                Err(e) => assert_eq!(text, e.to_string()),
                Ok(_) => panic!("two bytes are no metadata"),
            }
        }
        other => panic!("{:?}", other),
    }
    let mut bytes = encoded(two_pallets());
    bytes[0] = 0;
    assert!(matches!(
        metadata_from_encoded(&bytes),
        Err(EncodedMetadataError::Metadata(Error::InvalidPrefix))
    ));
    let version_13 = frame_metadata::RuntimeMetadataPrefixed(
        META_RESERVED,
        frame_metadata::RuntimeMetadata::V13(frame_metadata::OpaqueMetadata(vec![1, 2, 3])),
    );
    assert!(matches!(
        metadata_from_encoded(&version_13.encode()),
        Err(EncodedMetadataError::Metadata(Error::InvalidVersion))
    ));
}

#[test]
fn in_process_client_wraps_the_node() {
    let node = Arc::new(17u8);
    let client: InProcess<(), u8, ()> = InProcess::new(node.clone());
    assert!(Arc::ptr_eq(client.inner(), &node));
}

#[test]
fn finalized_block_stands_in() {
    let asked = std::cell::Cell::new(0);
    let finalized = || {
        asked.set(asked.get() + 1);
        9
    };
    assert_eq!(block_or_finalized(Some(4), &finalized), 4);
    assert_eq!(asked.get(), 0);
    assert_eq!(block_or_finalized(None, &finalized), 9);
    assert_eq!(asked.get(), 1);
}

#[test]
fn errors_have_messages() {
    assert_eq!(Error::Extraction(7).message(), "Error extracting substrate metadata: 7");
    assert_eq!(Error::ModuleNotFound(1).message(), "Module not found");
    assert_eq!(Error::EventNotFound(1).message(), "Event not found");
    assert_eq!(Error::StorageNotFound(1).message(), "Storage not found");
    assert_eq!(
        Error::InvalidEventArgument("Vec<".to_string()).message(),
        "Event argument error: Vec<"
    );
    assert_eq!(Error::InvalidPrefix.message(), "Invalid metadata prefix");
    assert_eq!(Error::InvalidVersion.message(), "Invalid metadata version");
    assert_eq!(Error::MissingType(120).message(), "Type 120 missing from type registry");
    assert_eq!(Error::TypeDefNotVariant(0).message(), "Type 0 was not a variant/enum type");
}

#[test]
fn errors_of_encoded_metadata_have_messages() {
    assert_eq!(EncodedMetadataError::Codec("short".to_string()).message(), "short");
    assert_eq!(
        EncodedMetadataError::Metadata(Error::MissingType(3)).message(),
        "Type 3 missing from type registry"
    );
}

use tos_tck::deployment_service::{
    is_bytecode_extension, transaction_hash, BytecodeStorage, DeployError, DeploymentEvent,
    DeploymentHandler, TosClient,
};
use tos_tck::factory;
use tos_tck::factory::FactoryError;
use tos_tck::storage::Storage;

const ABC_SHA256: &str = "ba7816bf8f01cfea414140de5dae2223b00361a396177a9cb410ff61f20015ad";

fn hex_of(b: &[u8]) -> String {
    b.iter().map(|x| format!("{:02x}", x)).collect()
}

#[test]
fn compute_hash_is_sha256() {
    let h = BytecodeStorage::compute_hash(b"abc");
    assert_eq!(hex_of(&h), ABC_SHA256);
    let e = BytecodeStorage::compute_hash(b"");
    assert_eq!(
        hex_of(&e),
        "e3b0c44298fc1c149afbf4c8996fb92427ae41e4649b934ca495991b7852b855"
    );
}

#[test]
fn storage_add_and_get() {
    let mut s = BytecodeStorage::new();
    assert_eq!(s.len(), 0);
    let h = s.add_bytecode(b"abc".to_vec());
    assert_eq!(hex_of(&h), ABC_SHA256);
    assert_eq!(s.len(), 1);
    assert_eq!(s.get_bytecode(&h), Some(&b"abc".to_vec()));
    // the same bytecode again replaces, not duplicates
    s.add_bytecode(b"abc".to_vec());
    assert_eq!(s.len(), 1);
    assert_eq!(s.get_bytecode(&[0u8; 32]), None);
}

#[test]
fn storage_insert_later_wins() {
    let mut s = BytecodeStorage::new();
    s.insert([7u8; 32], vec![1, 2]);
    s.insert([8u8; 32], vec![3]);
    s.insert([7u8; 32], vec![9]);
    assert_eq!(s.len(), 2);
    assert_eq!(s.get_bytecode(&[7u8; 32]), Some(&vec![9]));
    assert_eq!(s.get_bytecode(&[8u8; 32]), Some(&vec![3]));
}

#[test]
fn bytecode_extension() {
    assert!(is_bytecode_extension(Some("so")));
    assert!(!is_bytecode_extension(Some("rs")));
    assert!(!is_bytecode_extension(Some("sox")));
    assert!(!is_bytecode_extension(None));
}

#[test]
fn transaction_hash_is_salt_prefix() {
    let mut salt = [0u8; 32];
    for (i, b) in salt.iter_mut().enumerate() {
        *b = i as u8;
    }
    assert_eq!(transaction_hash(&salt), "0x000102030405060708090a0b0c0d0e0f");
    assert_eq!(transaction_hash(&[0xabu8; 32]), format!("0x{}", "ab".repeat(16)));
}

fn handler_with_abc() -> DeploymentHandler {
    let mut s = BytecodeStorage::new();
    s.add_bytecode(b"abc".to_vec());
    DeploymentHandler::new(TosClient::new("http://localhost".to_string()), s, "f".to_string())
}

fn event(hash: &str, salt: &str) -> DeploymentEvent {
    DeploymentEvent {
        deployer: String::new(),
        salt: salt.to_string(),
        bytecode_hash: hash.to_string(),
        predicted_address: String::new(),
    }
}

#[test]
fn plan_deployment_ok() {
    let h = handler_with_abc();
    let salt = "11".repeat(32);
    match h.plan_deployment(&event(ABC_SHA256, &salt)) {
        Ok((code, s)) => {
            assert_eq!(code, &b"abc".to_vec());
            assert_eq!(s, [0x11u8; 32]);
        }
        Err(e) => panic!("unexpected {:?}", e),
    }
    // upper-case hex decodes as well
    let upper = ABC_SHA256.to_uppercase();
    assert!(h.plan_deployment(&event(&upper, &salt)).is_ok());
}

#[test]
fn plan_deployment_errors() {
    let h = handler_with_abc();
    let salt = "11".repeat(32);
    assert_eq!(h.plan_deployment(&event("zz", &salt)).err(), Some(DeployError::InvalidHex));
    assert_eq!(h.plan_deployment(&event("abc", &salt)).err(), Some(DeployError::InvalidHex));
    assert_eq!(
        h.plan_deployment(&event("abcd", &salt)).err(),
        Some(DeployError::InvalidHashLength)
    );
    assert_eq!(
        h.plan_deployment(&event(&"00".repeat(32), &salt)).err(),
        Some(DeployError::BytecodeNotFound)
    );
    assert_eq!(
        h.plan_deployment(&event(ABC_SHA256, "xy")).err(),
        Some(DeployError::InvalidHex)
    );
    assert_eq!(
        h.plan_deployment(&event(ABC_SHA256, "1111")).err(),
        Some(DeployError::InvalidSaltLength)
    );
    assert_eq!(DeployError::BytecodeNotFound.message(), "Bytecode not found in storage");
}

// ---------------------------------------------------------------------------
// The factory contract
// ---------------------------------------------------------------------------

fn ctor_input(template: &[u8; 32], fee: u64) -> Vec<u8> {
    let mut v = template.to_vec();
    v.extend_from_slice(&fee.to_le_bytes());
    v
}

fn request_input(salt: &[u8; 32], hash: &[u8; 32]) -> Vec<u8> {
    let mut v = salt.to_vec();
    v.extend_from_slice(hash);
    v
}

#[test]
fn factory_constructor() {
    let owner = [1u8; 32];
    let mut st = Storage::new();
    assert_eq!(
        factory::constructor(&mut st, &owner, &[0u8; 39]).err(),
        Some(FactoryError::ConstructorInputTooShort)
    );
    assert_eq!(
        factory::constructor(&mut st, &owner, &ctor_input(&[0u8; 32], 5)).err(),
        Some(FactoryError::TemplateHashZero)
    );
    assert_eq!(
        factory::constructor(&mut st, &owner, &ctor_input(&[9u8; 32], factory::MAX_DEPLOYMENT_FEE + 1)).err(),
        Some(FactoryError::FeeExceedsMaximum)
    );
    // a refused construction writes nothing
    assert!(st.get_value(&[0x02u8]).is_none());
    let mut st = Storage::new();
    let event = factory::constructor(&mut st, &owner, &ctor_input(&[9u8; 32], 500)).ok().unwrap();
    assert_eq!(event.topic, b"FactoryInitialized".to_vec());
    let mut data = owner.to_vec();
    data.extend_from_slice(&ctor_input(&[9u8; 32], 500));
    assert_eq!(event.data, data);
    assert_eq!(factory::get_deployment_fee(&st), 500);
    assert_eq!(factory::get_deployment_count(&st), 0);
}

#[test]
fn factory_owner_functions() {
    let owner = [1u8; 32];
    let other = [2u8; 32];
    let mut st = Storage::new();
    assert_eq!(
        factory::set_deployment_fee(&mut st, &owner, &7u64.to_le_bytes()).err(),
        Some(FactoryError::OwnerNotSet)
    );
    factory::constructor(&mut st, &owner, &ctor_input(&[9u8; 32], 500)).ok().unwrap();
    assert_eq!(
        factory::set_deployment_fee(&mut st, &other, &7u64.to_le_bytes()).err(),
        Some(FactoryError::OnlyOwnerSetsFee)
    );
    assert_eq!(
        factory::set_deployment_fee(&mut st, &owner, &[1, 2]).err(),
        Some(FactoryError::FeeInputTooShort)
    );
    assert_eq!(
        factory::set_deployment_fee(&mut st, &owner, &(factory::MAX_DEPLOYMENT_FEE + 1).to_le_bytes()).err(),
        Some(FactoryError::FeeExceedsMaximum)
    );
    let (status, event) = factory::set_deployment_fee(&mut st, &owner, &7u64.to_le_bytes()).ok().unwrap();
    assert_eq!(status, 1);
    assert_eq!(event.topic, b"DeploymentFeeUpdated".to_vec());
    assert_eq!(event.data, 7u64.to_le_bytes().to_vec());
    assert_eq!(factory::get_deployment_fee(&st), 7);
    assert_eq!(
        factory::set_template_hash(&mut st, &other, &[5u8; 32]).err(),
        Some(FactoryError::OnlyOwnerSetsTemplate)
    );
    assert_eq!(
        factory::set_template_hash(&mut st, &owner, &[5u8; 31]).err(),
        Some(FactoryError::TemplateInputTooShort)
    );
    assert_eq!(
        factory::set_template_hash(&mut st, &owner, &[0u8; 32]).err(),
        Some(FactoryError::TemplateHashZero)
    );
    let (status, event) = factory::set_template_hash(&mut st, &owner, &[5u8; 32]).ok().unwrap();
    assert_eq!(status, 1);
    assert_eq!(event.topic, b"TemplateHashUpdated".to_vec());
    assert_eq!(event.data, vec![5u8; 32]);
    assert_eq!(FactoryError::OnlyOwnerSetsFee.message(), "Only owner can set fee");
    assert_eq!(FactoryError::QueryInputTooShort.message(), "is_deployed requires 32 bytes salt");
}

#[test]
fn factory_request_and_mark() {
    let owner = [1u8; 32];
    let user = [3u8; 32];
    let template = [9u8; 32];
    let salt = [4u8; 32];
    let predicted = [6u8; 32];
    let mut st = Storage::new();
    factory::constructor(&mut st, &owner, &ctor_input(&template, 500)).ok().unwrap();

    let input = request_input(&salt, &template);
    assert_eq!(
        factory::request_deployment(&mut st, &user, 499, 10, &input, &predicted).err(),
        Some(FactoryError::InsufficientFee)
    );
    assert_eq!(
        factory::request_deployment(&mut st, &user, 500, 10, &input[..63], &predicted).err(),
        Some(FactoryError::RequestInputTooShort)
    );
    assert_eq!(
        factory::request_deployment(&mut st, &user, 500, 10, &request_input(&salt, &[0u8; 32]), &predicted).err(),
        Some(FactoryError::BytecodeHashZero)
    );
    assert_eq!(
        factory::request_deployment(&mut st, &user, 500, 10, &request_input(&salt, &[8u8; 32]), &predicted).err(),
        Some(FactoryError::TemplateMismatch)
    );
    assert_eq!(factory::is_deployed(&st, &salt), Ok(0));
    let (address, event) = factory::request_deployment(&mut st, &user, 500, 10, &input, &predicted).ok().unwrap();
    assert_eq!(address, predicted);
    assert_eq!(event.topic, b"DeploymentRequested".to_vec());
    let mut data = user.to_vec();
    data.extend_from_slice(&salt);
    data.extend_from_slice(&template);
    data.extend_from_slice(&predicted);
    assert_eq!(event.data, data);
    assert_eq!(factory::get_deployment_count(&st), 1);
    assert_eq!(
        factory::request_deployment(&mut st, &user, 500, 11, &input, &predicted).err(),
        Some(FactoryError::SaltAlreadyUsed)
    );
    assert_eq!(factory::is_deployed(&st, &salt), Ok(0));
    assert_eq!(
        factory::mark_deployed(&mut st, &user, &salt).err(),
        Some(FactoryError::OnlyOwnerMarksDeployed)
    );
    assert_eq!(
        factory::mark_deployed(&mut st, &owner, &[4u8; 31]).err(),
        Some(FactoryError::MarkInputTooShort)
    );
    assert_eq!(
        factory::mark_deployed(&mut st, &owner, &[5u8; 32]).err(),
        Some(FactoryError::DeploymentNotFound)
    );
    let event = factory::mark_deployed(&mut st, &owner, &salt).ok().unwrap();
    assert_eq!(event.topic, b"DeploymentCompleted".to_vec());
    assert_eq!(event.data, salt.to_vec());
    assert_eq!(factory::is_deployed(&st, &salt), Ok(1));
    assert_eq!(factory::is_deployed(&st, &[4u8; 31]), Err(FactoryError::QueryInputTooShort));
}

#[test]
fn factory_request_served_by_service() {
    // the service, holding the template's bytecode, plans what the factory's event asks for
    let owner = [1u8; 32];
    let user = [3u8; 32];
    let salt = [4u8; 32];
    let mut storage = BytecodeStorage::new();
    let template = storage.add_bytecode(b"abc".to_vec());
    let mut st = Storage::new();
    factory::constructor(&mut st, &owner, &ctor_input(&template, 0)).ok().unwrap();
    let (_, event) = factory::request_deployment(&mut st, &user, 0, 1, &request_input(&salt, &template), &[6u8; 32])
        .ok()
        .unwrap();
    let relayed = DeploymentEvent {
        deployer: hex_of(&event.data[0..32]),
        salt: hex_of(&event.data[32..64]),
        bytecode_hash: hex_of(&event.data[64..96]),
        predicted_address: hex_of(&event.data[96..128]),
    };
    let handler = DeploymentHandler::new(TosClient::new(String::new()), storage, String::new());
    match handler.plan_deployment(&relayed) {
        Ok((code, s)) => {
            assert_eq!(code, &b"abc".to_vec());
            assert_eq!(s, salt);
        }
        Err(e) => panic!("unexpected {:?}", e),
    }
}

#[test]
fn factory_template_not_set() {
    let mut st = Storage::new();
    let input = request_input(&[4u8; 32], &[9u8; 32]);
    assert_eq!(
        factory::request_deployment(&mut st, &[3u8; 32], 0, 1, &input, &[6u8; 32]).err(),
        Some(FactoryError::TemplateHashNotSet)
    );
}

#[test]
fn factory_create2_preimage_layout() {
    let p = factory::create2_preimage(&[1u8; 32], &[2u8; 32], &[3u8; 32]);
    assert_eq!(p.len(), 97);
    assert_eq!(p[0], 0xff);
    assert!(p[1..33].iter().all(|&b| b == 1));
    assert!(p[33..65].iter().all(|&b| b == 2));
    assert!(p[65..97].iter().all(|&b| b == 3));
}

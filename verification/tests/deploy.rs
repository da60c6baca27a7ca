use f1r3fly_client::api::F1r3flyApi;
use f1r3fly_client::crypto::{read_key, KeyError};
use f1r3fly_client::deploy::{
    extract_deploy_id, phlo_limit, sign_deploy, timestamp_of, unsigned_deploy, valid_after_block,
    with_signature, DeployData,
};
use f1r3fly_client::error::ApiError;
use f1r3fly_client::hexadecimal::HexError;
use f1r3fly_client::service::{Reply, ServiceError};

const KEY: &str = "5f668a7ee96d944a4494cc947e4005e172d7ab3461ee5538f1f2a45a835e9657";
const PUBLIC_KEY: &str = "04ffc016579a68050d655d55df4e09f04605164543e257c8e6df10361e6068a533\
                          6588e9b355ea859c5ab4285a5ef0efdf62bc28b80320ce99e26bb1607b3ad93d";
const SIGNATURE: &str = "3045022100e15b1559640f1d5bbea21effa8e5f3d6357d9544a296e968ca33b0ce95a6\
                         865e022031504c06f164070fb36cb6a6e25aec93709ae44ebeed69d8dc9c4e39cd42afbd";
const ONE: &str = "0000000000000000000000000000000000000000000000000000000000000001";
const ORDER: &str = "fffffffffffffffffffffffffffffffebaaedce6af48a03bbfd25e8cd0364141";
const LARGEST: &str = "fffffffffffffffffffffffffffffffebaaedce6af48a03bbfd25e8cd0364140";

fn hex(bytes: &[u8]) -> String {
    bytes.iter().map(|b| format!("{:02x}", b)).collect()
}

fn api() -> F1r3flyApi<'static> {
    F1r3flyApi::new(KEY, "localhost", 40412)
}

fn id(response: &str) -> String {
    extract_deploy_id(response).unwrap()
}

#[test]
fn keys_are_read_from_hexadecimal() {
    assert_eq!(hex(&read_key(KEY).unwrap()), KEY);
    assert_eq!(hex(&read_key(&KEY.to_uppercase()).unwrap()), KEY);
    assert_eq!(hex(&read_key(ONE).unwrap()), ONE);
    assert_eq!(hex(&read_key(LARGEST).unwrap()), LARGEST);
}

#[test]
fn short_keys_are_padded() {
    let short = "11".repeat(24);
    assert_eq!(hex(&read_key(&short).unwrap()), format!("{}{}", "00".repeat(8), short));
    assert_eq!(read_key(&"11".repeat(23)), Err(KeyError::InvalidKey));
    assert_eq!(read_key(&"11".repeat(33)), Err(KeyError::InvalidKey));
}

#[test]
fn what_is_no_key_is_refused() {
    assert_eq!(read_key(&"00".repeat(32)), Err(KeyError::InvalidKey));
    assert_eq!(read_key(ORDER), Err(KeyError::InvalidKey));
    assert_eq!(read_key(""), Err(KeyError::InvalidKey));
    assert_eq!(read_key("abc"), Err(KeyError::InvalidHex(HexError::OddLength)));
    assert_eq!(
        read_key("0x11"),
        Err(KeyError::InvalidHex(HexError::InvalidHexCharacter { c: 'x', index: 1 }))
    );
    assert_eq!(
        read_key("1é1"),
        Err(KeyError::InvalidHex(HexError::InvalidHexCharacter { c: '\u{c3}', index: 1 }))
    );
    assert_eq!(
        F1r3flyApi::try_new("zz", "localhost", 1).err(),
        Some(KeyError::InvalidHex(HexError::InvalidHexCharacter { c: 'z', index: 0 }))
    );
}

#[test]
fn limits() {
    assert_eq!(phlo_limit(true), 5_000_000_000);
    assert_eq!(phlo_limit(false), 100_000);
}

#[test]
fn an_unknown_current_block_counts_as_the_first() {
    assert_eq!(valid_after_block(&Ok(42)), 42);
    assert_eq!(valid_after_block(&Err(ApiError::NodeUnreachable)), 0);
}

#[test]
fn messages_are_written_field_by_field() {
    let message = DeployData {
        deployer: vec![1, 2],
        term: "t".to_string(),
        timestamp: -1,
        sig: vec![3],
        sig_algorithm: "a".to_string(),
        phlo_price: 1,
        phlo_limit: 2,
        valid_after_block_number: 3,
        shard_id: "s".to_string(),
        language: "l".to_string(),
    };
    assert_eq!(
        hex(&message.encode_to_vec()),
        "0a02010212017418ffffffffffffffffff012201032a01613801400250035a017362016c"
    );
}

#[test]
fn what_is_signed_leaves_out_what_is_unset() {
    let unsigned = unsigned_deploy("new x in { x!(1) }", 1700000000000, 100_000, 42, "rholang");
    assert_eq!(
        hex(&unsigned.encode_to_vec()),
        "12126e6577207820696e207b207821283129207d1880d095ffbc31380140a08d06502a5a04726f6f74\
         620772686f6c616e67"
    );
    let empty = unsigned_deploy("", 1, 5_000_000_000, 0, "");
    assert_eq!(hex(&empty.encode_to_vec()), "180138014080e497d0125a04726f6f74");
}

#[test]
fn what_is_signed_tells_deploys_apart() {
    let bytes = |code: &str, time, limit, after, language: &str| {
        unsigned_deploy(code, time, limit, after, language).encode_to_vec()
    };
    let all = [
        bytes("a", 1, 1, 1, "l"),
        bytes("b", 1, 1, 1, "l"),
        bytes("", 1, 1, 1, "l"),
        bytes("a", 2, 1, 1, "l"),
        bytes("a", 0, 1, 1, "l"),
        bytes("a", 1, 2, 1, "l"),
        bytes("a", 1, 0, 1, "l"),
        bytes("a", 1, 1, 2, "l"),
        bytes("a", 1, 1, 0, "l"),
        bytes("a", 1, 1, -1, "l"),
        bytes("a", 1, 1, 1, ""),
        bytes("a", 1, 1, 1, "m"),
    ];
    for i in 0..all.len() {
        for j in 0..i {
            assert_ne!(all[i], all[j]);
        }
    }
}

#[test]
fn deploys_are_signed() {
    let message = api()
        .build_deploy_msg("new x in { x!(1) }", 100_000, "rholang", 42, 1700000000000)
        .unwrap();
    assert_eq!(hex(&message.sig), SIGNATURE);
    assert_eq!(hex(&message.deployer), PUBLIC_KEY);
    assert_eq!(message.sig_algorithm, "secp256k1");
    assert_eq!(message.term, "new x in { x!(1) }");
    assert_eq!(message.timestamp, 1700000000000);
    assert_eq!(message.phlo_price, 1);
    assert_eq!(message.phlo_limit, 100_000);
    assert_eq!(message.valid_after_block_number, 42);
    assert_eq!(message.shard_id, "root");
    assert_eq!(message.language, "rholang");
}

#[test]
fn a_signature_without_padding() {
    let key = read_key(KEY).unwrap();
    let message = sign_deploy(&key, unsigned_deploy("", 1, 5_000_000_000, 0, "")).unwrap();
    assert_eq!(
        hex(&message.sig),
        "3044022041742c6b567e60243cf90105aab92c8dc394a36c45e9a780e99d47a2660d4ad4\
         02202919e6eb91efe201998e175971977e12411f2b6bb4586f0b1af0907786c5d730"
    );
}

#[test]
fn the_deploy_message_follows_the_options() {
    let message = api()
        .deploy_message("new x in { x!(1) }", false, "rholang", &Ok(42), 1700000000000)
        .unwrap();
    assert_eq!(hex(&message.sig), SIGNATURE);
    let bigger = api()
        .deploy_message("@0!(1)", true, "metta", &Err(ApiError::Decode), 1700000000000)
        .unwrap();
    assert_eq!(bigger.phlo_limit, 5_000_000_000);
    assert_eq!(bigger.valid_after_block_number, 0);
    assert_eq!(bigger.language, "metta");
}

#[test]
fn the_language_is_signed() {
    let sig = |language| {
        let message =
            api().build_deploy_msg("@0!(1)", 100_000, language, 42, 1700000000001).unwrap();
        assert_eq!(message.language, language);
        hex(&message.sig)
    };
    assert_eq!(
        sig("rholang"),
        "3045022100e938c02daf58e49a0291a0834e3f36199762685ade42bff7ebfa59d39462eef8\
         02200ced8bc427ff9dde63eb11e1fc081c925a491ee8ac234745914e049f7905aa97"
    );
    assert_eq!(
        sig("metta"),
        "30450221009b07008d87ee083d6f9917a2436ca6a81020f8e4536a32ac663f30ecf0062a30\
         02201fd98c0f47f1383ad73a92c62607d944e6f6681f851c5808b055990080a4f71b"
    );
    assert_eq!(
        sig(""),
        "304402201c6961067022629bc5f67b68511eca0c6e733047d2163b0e3d9ea11676afe2e4\
         022024f92478726ca6d63502d3fe781f449fc34bb1e80c5383016fda69d7dfd62779"
    );
}

#[test]
fn a_signed_deploy_shows_what_was_signed() {
    let message = api().build_deploy_msg("@0!(1)", 100_000, "metta", 42, 1700000000001).unwrap();
    let shown = DeployData {
        deployer: vec![],
        sig: vec![],
        sig_algorithm: String::new(),
        term: message.term,
        timestamp: message.timestamp,
        phlo_price: message.phlo_price,
        phlo_limit: message.phlo_limit,
        valid_after_block_number: message.valid_after_block_number,
        shard_id: message.shard_id,
        language: message.language,
    };
    let bytes = shown.encode_to_vec();
    assert_eq!(
        hex(&bytes),
        "12064030212831291881d095ffbc31380140a08d06502a5a04726f6f7462056d65747461"
    );
    assert_eq!(sign_deploy(&read_key(KEY).unwrap(), shown).unwrap().sig, message.sig);
}

#[test]
fn a_time_beyond_the_range_wraps_round() {
    let message = api().build_deploy_msg("x", 1, "", 0, 1u128 << 64 | 5).unwrap();
    assert_eq!(message.timestamp, 5);
    let message = api().build_deploy_msg("x", 1, "", 0, (1u128 << 63) + 1).unwrap();
    assert_eq!(message.timestamp, i64::MIN + 1);
}

#[test]
fn signatures_are_written_in_der() {
    let mut signature = vec![0u8; 64];
    signature[31] = 1;
    signature[62] = 0x80;
    let message = with_signature(unsigned_deploy("x", 1, 1, 1, "l"), &signature, vec![4]);
    assert_eq!(hex(&message.sig), "30080201010203008000");
    assert_eq!(message.deployer, vec![4]);
}

#[test]
fn the_longest_signature_in_der() {
    let mut signature = vec![0xffu8; 64];
    signature[15] = 0xfe;
    signature[16] = 0;
    signature[47] = 0xfe;
    signature[48] = 0;
    let message = with_signature(unsigned_deploy("x", 1, 1, 1, "l"), &signature, vec![]);
    assert_eq!(message.sig.len(), 72);
    assert_eq!(message.sig[1], 70);
    assert_eq!(message.sig[..5], [0x30, 70, 2, 33, 0]);
}

#[test]
fn signatures_are_told_apart_in_der() {
    let der = |r: u8, s: u8| {
        let mut signature = vec![0u8; 64];
        signature[31] = r;
        signature[30] = r / 2;
        signature[63] = s;
        with_signature(unsigned_deploy("x", 1, 1, 1, "l"), &signature, vec![]).sig
    };
    let all = [der(1, 2), der(2, 1), der(128, 1), der(1, 128), der(255, 255), der(1, 1)];
    for i in 0..all.len() {
        assert_eq!(all[i][1] as usize, all[i].len() - 2);
        for j in 0..i {
            assert_ne!(all[i], all[j]);
        }
    }
}

#[test]
fn a_reported_id_is_read_whatever_the_report() {
    let id = SIGNATURE;
    for response in [
        id.to_string(),
        format!("Success! DeployId is: {}", id),
        format!("Success!\nDeployId is: {}", id),
        format!("Success!\n{}", id),
    ] {
        assert_eq!(extract_deploy_id(&response).unwrap(), id);
    }
}

#[test]
fn timestamps() {
    assert_eq!(timestamp_of(0), 0);
    assert_eq!(timestamp_of(i64::MAX as u128), i64::MAX);
    assert_eq!(timestamp_of(u128::MAX), -1);
}

#[test]
fn deploy_ids_after_a_success() {
    assert_eq!(id("Success! DeployId is: 3044ab"), "3044ab");
    assert_eq!(id("  Success! DeployId is:   3044ab \n"), "3044ab");
    assert_eq!(id("Success!\nDeployId is: 3044ab\n"), "3044ab");
    assert_eq!(id("Success! DeployId is: not hex at all"), "not hex at all");
}

#[test]
fn deploy_ids_on_a_line_of_their_own() {
    let long = "ab".repeat(33);
    assert_eq!(id(&format!("Success!\r\nfirst\r\n  {}  \r\n", long)), long);
    let longer = "CD".repeat(40);
    assert_eq!(id(&format!("Success! x\n{}\n{}", longer, long)), longer);
    let just_too_short = "a".repeat(64);
    let enough = "a".repeat(65);
    assert_eq!(id(&format!("Success!\n{}\n{}", just_too_short, enough)), enough);
}

#[test]
fn deploy_ids_that_are_missing() {
    for response in
        ["Success!", "Success! DeployId is:", " Success!\nDeployId is: ", "Success!\n3044ab"]
    {
        assert_eq!(
            extract_deploy_id(response).unwrap_err().message(),
            format!("Could not extract deploy ID from response: {}", response)
        );
    }
    let no_digit = format!("Success!\n{}g", "a".repeat(70));
    assert!(extract_deploy_id(&no_digit).is_err());
    let wide = format!("Success!\n{}é", "a".repeat(70));
    assert!(extract_deploy_id(&wide).is_err());
}

#[test]
fn other_replies_are_deploy_ids() {
    assert_eq!(id(" 3044ab\n"), "3044ab");
    assert_eq!(id("success! DeployId is: x"), "success! DeployId is: x");
    assert_eq!(id(""), "");
    assert_eq!(id("\u{a0}\u{3000}x\u{2003}"), "x");
}

#[test]
fn replies_to_a_deploy() {
    let text = |s: &str| s.to_string();
    assert_eq!(api().deploy(&Reply::Result(text("Success! DeployId is: 30"))).unwrap(), "30");
    assert_eq!(
        api().deploy(&Reply::Empty).unwrap_err().message(),
        "Deploy result not found"
    );
    assert_eq!(api().deploy(&Reply::Failed(text("refused"))).unwrap_err().message(), "refused");
    let error = ServiceError {
        messages: vec![text("m")],
        display: text("ServiceError: [m]"),
        debug: text("ServiceError { messages: [m] }"),
    };
    assert_eq!(
        api().deploy(&Reply::Error(error)).unwrap_err().message(),
        "ServiceError: [m]"
    );
    assert_eq!(
        api().deploy(&Reply::Result(text(" Success! "))).unwrap_err().message(),
        "Could not extract deploy ID from response:  Success! "
    );
}

#[test]
fn the_deployer_is_an_uncompressed_point() {
    for key in [KEY, ONE, LARGEST] {
        let api = F1r3flyApi::new(key, "localhost", 1);
        let deployer = api.build_deploy_msg("x", 1, "", 0, 1).unwrap().deployer;
        assert_eq!(deployer.len(), 65);
        assert_eq!(deployer[0], 4);
    }
}

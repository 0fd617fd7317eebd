use abi_scan::{
    classify, describe, extract_abi, normalize, parse_params_, scan_declarations, scopes,
    signatures, tag_of, ContractFunction, ContractParam, FunctionTag, FunctionType, ParseError,
    Receiver,
};

fn param(name: &str, ty: &str) -> ContractParam {
    ContractParam { name: name.to_string(), param_type: ty.to_string() }
}

fn function(name: &str, ret: &str, params: Vec<ContractParam>, t: FunctionType) -> ContractFunction {
    ContractFunction { name: name.to_string(), return_type: ret.to_string(), params, fn_type: t }
}

const SAMPLE: &str = "
/// A dice game: send a deposit, roll a six and win.
use near_sdk::{
    borsh::{self, BorshDeserialize, BorshSerialize},
    near_bindgen, Balance, PanicOnDefault, env, log, Promise,
};

const FACTOR: u128 = 6;

#[near_bindgen]
#[derive(BorshDeserialize, BorshSerialize, PanicOnDefault)]
pub struct Gamble {
    // lowest deposit accepted
    gamble_min_price : Balance,
    gamble_max_price : Balance,
}

#[near_bindgen]
impl Gamble {
    // sets the price limits
    #[init]
    pub fn new() -> Self {
        let account_balance = env::account_balance();
        log!(\"we have {} in total\", account_balance);
        Self { gamble_max_price: account_balance / (5 * FACTOR), gamble_min_price: 0 }
    }

    pub fn get_minimal_gamble_price(&self) -> u128 {
        self.gamble_min_price
    }

    pub fn get_balance(&self) -> u128 {
        env::account_balance()
    }

    fn update_price(&mut self){
        self.gamble_max_price = env::account_balance() / (5 * FACTOR);
    }

    #[payable]
    pub fn sponsor(&mut self){
        self.update_price();
    }

    /* the dice is thrown
       by the contract */
    #[payable]
    pub fn gamble(&mut self) -> u8{
        let num = self.rand_dice();
        self.update_price();
        return num;
    }

    pub fn rand_dice(&self) -> u8 {
        *env::random_seed().get(0).unwrap()%6+1
    }
}
";

#[test]
fn sample_contract_interface() {
    let abi = extract_abi(SAMPLE);
    let expected = vec![
        function("new", "Self", vec![], FunctionType::INIT),
        function("get_minimal_gamble_price", "u128", vec![], FunctionType::READ),
        function("get_balance", "u128", vec![], FunctionType::READ),
        function("gamble", "u8", vec![], FunctionType::PAYABLE),
        function("rand_dice", "u8", vec![], FunctionType::READ),
    ];
    assert_eq!(abi, expected);
}

#[test]
fn no_scope_gives_empty_interface() {
    assert!(extract_abi("").is_empty());
    assert!(extract_abi("pub fn f(&self) -> u8 ").is_empty());
    assert!(extract_abi("pub fn f(&self) -> u8 { 1 ").is_empty());
}

#[test]
fn receiver_decides_without_tag() {
    let abi = extract_abi("impl X { pub fn set(&mut self, v: u8) { } pub fn get(&self) -> u8 { 1 } pub fn make() -> Self { } pub fn take(self) { } }");
    assert_eq!(
        abi,
        vec![
            function("set", "", vec![param("v", "u8")], FunctionType::WRITE),
            function("get", "u8", vec![], FunctionType::READ),
            function("make", "Self", vec![], FunctionType::UNKNOWN),
            function("take", "", vec![], FunctionType::READ),
        ]
    );
}

#[test]
fn tags_decide_over_receiver() {
    let abi = extract_abi("impl X { #[init] pub fn new(&mut self) { } #[init] pub fn fresh() -> Self { } #[payable] pub fn pay(&self) { } #[private] pub fn callback(&mut self) { } #[handle_result] pub fn other(&mut self) { } }");
    assert_eq!(
        abi,
        vec![
            function("new", "", vec![], FunctionType::INIT),
            function("fresh", "Self", vec![], FunctionType::INIT),
            function("pay", "", vec![], FunctionType::PAYABLE),
            function("other", "", vec![], FunctionType::WRITE),
        ]
    );
}

#[test]
fn parameter_order_is_kept() {
    let abi = extract_abi("impl X { pub fn f(&self, a: u64, b: String) { } }");
    assert_eq!(abi.len(), 1);
    assert_eq!(abi[0].params, vec![param("a", "u64"), param("b", "String")]);
    let parsed = parse_params_("(a: u64, b: String)".to_string());
    assert_eq!(parsed, Ok((Receiver::Absent, vec![param("a", "u64"), param("b", "String")])));
}

#[test]
fn extraction_is_repeatable() {
    let first = extract_abi(SAMPLE);
    let second = extract_abi(SAMPLE);
    assert_eq!(first, second);
}

#[test]
fn comments_do_not_change_functions() {
    let plain = extract_abi("impl X {\n pub fn f(&self, a: u8) -> u8 { a }\n}");
    let line = extract_abi("impl X {\n // reads a value\n pub fn f(&self, a: u8) -> u8 { a }\n}");
    let block = extract_abi("impl X {\n /* reads\n a value */ pub fn f(&self, a: u8) -> u8 { a } /* done */\n}");
    assert_eq!(plain.len(), 1);
    assert_eq!(plain, line);
    assert_eq!(plain, block);
}

#[test]
fn read_scenario() {
    let abi = extract_abi("impl Counter { pub fn get(&self) -> u8 { 1 } }");
    assert_eq!(abi, vec![function("get", "u8", vec![], FunctionType::READ)]);
}

#[test]
fn payable_scenario() {
    let abi = extract_abi("impl Gamble { #[payable] pub fn gamble(&mut self) -> u8 { 6 } }");
    assert_eq!(abi, vec![function("gamble", "u8", vec![], FunctionType::PAYABLE)]);
}

#[test]
fn private_scenario() {
    let abi = extract_abi("impl Gamble { #[private] fn update_price(&mut self) { } #[private] pub fn update_limit(&mut self) { } pub fn get(&self) { } }");
    assert_eq!(abi, vec![function("get", "", vec![], FunctionType::READ)]);
    let all = scan_declarations("impl Gamble { #[private] pub fn update_limit(&mut self) { } }");
    assert_eq!(all.len(), 1);
    assert_eq!(all[0].as_ref().unwrap().fn_type, FunctionType::PRIVATE);
}

#[test]
fn nested_braces_form_one_scope() {
    let text = "impl X { pub fn f(&self) { if true { } } }";
    let found = scopes(text);
    assert_eq!(found, vec!["{ pub fn f(&self) { if true { } } }".to_string()]);
    let abi = extract_abi(text);
    assert_eq!(abi, vec![function("f", "", vec![], FunctionType::READ)]);
}

#[test]
fn scopes_pass_over_unbalanced_braces() {
    assert_eq!(scopes("} a { b { c } d"), vec!["{ c }".to_string()]);
    assert_eq!(scopes("{a}{b} {c{d}}"), vec!["{a}".to_string(), "{b}".to_string(), "{c{d}}".to_string()]);
    assert!(scopes("no braces").is_empty());
}

#[test]
fn normalize_removes_comments() {
    assert_eq!(normalize("a // c\n  b  "), "a b");
    assert_eq!(normalize("// only\nx"), "x");
    assert_eq!(normalize("x\n\ny"), "x  y");
    assert_eq!(normalize("a/* c */b"), "a b");
    assert_eq!(normalize("a\n/* one\ntwo */ b"), "a   b");
    assert_eq!(normalize("a /* open"), "a  ");
    assert_eq!(normalize("a */ b"), "a */ b");
    assert_eq!(normalize(""), "");
}

#[test]
fn signatures_capture_their_parts() {
    let sigs = signatures("{ #[payable] pub fn gamble(&mut self, f: (u8, u8)) -> u8{ } pub fn g() { } pub fn h(){ } }");
    assert_eq!(sigs.len(), 2);
    assert_eq!(sigs[0].tag, "payable");
    assert_eq!(sigs[0].name, "gamble");
    assert_eq!(sigs[0].params, "(&mut self, f: (u8, u8))");
    assert_eq!(sigs[0].return_type, "u8");
    assert_eq!(sigs[1].tag, "");
    assert_eq!(sigs[1].name, "g");
    assert_eq!(sigs[1].params, "()");
    assert_eq!(sigs[1].return_type, "");
}

#[test]
fn parameters_and_receivers() {
    assert_eq!(parse_params_("()".to_string()), Ok((Receiver::Absent, vec![])));
    assert_eq!(parse_params_("(&mut self)".to_string()), Ok((Receiver::Mutable, vec![])));
    assert_eq!(parse_params_("(self)".to_string()), Ok((Receiver::Immutable, vec![])));
    assert_eq!(parse_params_("( mut self )".to_string()), Ok((Receiver::Immutable, vec![])));
    assert_eq!(
        parse_params_("(&self, amount: u128, )".to_string()),
        Ok((Receiver::Immutable, vec![param("amount", "u128")]))
    );
}

#[test]
fn parameter_errors() {
    assert_eq!(parse_params_("(a: std::string::String)".to_string()), Err(ParseError::MalformedSignature));
    assert_eq!(parse_params_("(&self, a: )".to_string()), Err(ParseError::MalformedSignature));
    assert_eq!(parse_params_("(foo)".to_string()), Err(ParseError::UnresolvedReceiver));
    let all = scan_declarations("struct S { } impl X { pub fn good(&self) { } pub fn bad(&self, id: near::AccountId) { } }");
    assert_eq!(all.len(), 2);
    assert!(all[0].is_ok());
    let err = all[1].as_ref().unwrap_err();
    assert_eq!(err.name, "bad");
    assert_eq!(err.scope, 1);
    assert_eq!(err.error, ParseError::MalformedSignature);
    assert_eq!(
        extract_abi("impl X { pub fn good(&self) { } pub fn bad(&self, id: near::AccountId) { } }"),
        vec![function("good", "", vec![], FunctionType::READ)]
    );
}

#[test]
fn tags_and_classification() {
    assert_eq!(tag_of("init"), Some(FunctionTag::Init));
    assert_eq!(tag_of("private"), Some(FunctionTag::Private));
    assert_eq!(tag_of("payable"), Some(FunctionTag::Payable));
    assert_eq!(tag_of("near_bindgen"), None);
    assert_eq!(tag_of(""), None);
    assert_eq!(classify(Some(FunctionTag::Init), Receiver::Mutable), FunctionType::INIT);
    assert_eq!(classify(Some(FunctionTag::Payable), Receiver::Immutable), FunctionType::PAYABLE);
    assert_eq!(classify(Some(FunctionTag::Private), Receiver::Absent), FunctionType::PRIVATE);
    assert_eq!(classify(None, Receiver::Mutable), FunctionType::WRITE);
    assert_eq!(classify(None, Receiver::Immutable), FunctionType::READ);
    assert_eq!(classify(None, Receiver::Absent), FunctionType::UNKNOWN);
}

#[test]
fn describe_reads_a_signature() {
    let sigs = signatures("{ #[init] pub fn new(owner: AccountId) -> Self { } }");
    let f = describe(&sigs[0]).unwrap();
    assert_eq!(f, function("new", "Self", vec![param("owner", "AccountId")], FunctionType::INIT));
}

#[test]
fn comment_lines_around_a_text() {
    let plain = "impl X { #[payable] pub fn pay(&mut self, amount: u128) -> u8 { 1 } }";
    let expected = extract_abi(plain);
    assert_eq!(expected.len(), 1);
    assert_eq!(extract_abi(&format!("   // pays\n{}", plain)), expected);
    assert_eq!(extract_abi(&format!("/* pays */\n{}", plain)), expected);
    assert_eq!(extract_abi(&format!("{}\n/* end */", plain)), expected);
    assert_eq!(normalize(&format!("/* pays */\n{}", plain)), format!("  {}", plain));
    assert_eq!(normalize(&format!("{}\n/* end */", plain)), format!("{}  ", plain));
}

#[test]
fn sample_contract_has_no_unreadable_declaration() {
    let all = scan_declarations(SAMPLE);
    assert_eq!(all.len(), 5);
    assert!(all.iter().all(|o| o.is_ok()));
}

use objc2::runtime::ivar::EncodingError;
use objc2::runtime::method::TypesError;
use objc2::runtime::object::{IvarError, LookupError};
use objc2::runtime::protocol::{IncompleteDescription, MethodDescription};
use objc2::runtime::verify::VerificationError;
use objc2::runtime::{
    AnyClass, AnyObject, AnyProtocol, Imp, Ivar, Method, RawDescription, Runtime, Sel,
};

/// A message that a method implementation answers.
type Message = fn(AnyObject, &[i32]) -> Answer;

/// What a message is answered.
#[derive(Debug, PartialEq)]
enum Answer {
    Number(i32),
    Object(AnyObject),
}

/// The implementations that methods of the fixture have.
const IMPLEMENTATIONS: [Message; 5] = [
    |_, _| Answer::Number(0),
    |_, args| Answer::Number(args[0] + args[1]),
    |_, args| Answer::Number(args[0] + args[1] + args[2] + args[3]),
    |_, args| Answer::Number(args[0] * args[1] * args[2] * args[3]),
    |receiver, _| Answer::Object(receiver),
];

const NOTHING: Imp = Imp(0);
const ADD: Imp = Imp(1);
const SUM: Imp = Imp(2);
const PRODUCT: Imp = Imp(3);
const ITSELF: Imp = Imp(4);

/// Sends a message as the runtime does: to the method of the receiver's class.
fn send(rt: &Runtime, receiver: AnyObject, sel: Sel, args: &[i32]) -> Answer {
    let method = receiver.class(rt).instance_method(rt, sel).unwrap();
    IMPLEMENTATIONS[method.implementation(rt).0](receiver, args)
}

fn types(encodings: &[&str]) -> Vec<Vec<u8>> {
    encodings.iter().map(|e| e.as_bytes().to_vec()).collect()
}

fn define(rt: &mut Runtime, cls: AnyClass, name: &str, encodings: &[&str], imp: Imp) -> Method {
    let sel = Sel::register(rt, name.as_bytes());
    let arguments = types(&encodings[1..]);
    rt.add_method(cls, sel, encodings[0].as_bytes().to_vec(), arguments, imp).unwrap()
}

fn describe(rt: &mut Runtime, p: AnyProtocol, required: bool, instance: bool, d: (&str, &str)) {
    let sel = Sel::register(rt, d.0.as_bytes());
    let types = d.1.as_bytes().to_vec();
    rt.describe(p, required, instance, MethodDescription { sel, types });
}

/// A runtime with two root classes, a subclass, and a few protocols.
fn fixture() -> Runtime {
    let mut rt = Runtime::new();

    let ns_protocol = rt.add_protocol(b"NSObject", vec![]).unwrap();
    let ns_object = rt.add_class(b"NSObject", None, 8, 40).unwrap();
    let ns_meta = ns_object.metaclass(&rt);
    rt.adopt(ns_object, ns_protocol);
    rt.adopt(ns_meta, ns_protocol);
    define(&mut rt, ns_meta, "self", &["#", "#", ":"], ITSELF);
    let protocol_class = rt.add_class(b"Protocol", Some(ns_object), 96, 40).unwrap();
    rt.set_protocol_class(protocol_class);

    let protocol = rt.add_protocol(b"CustomProtocol", vec![]).unwrap();
    describe(&mut rt, protocol, true, true, ("setBar:", "v@:i"));
    describe(&mut rt, protocol, false, true, ("getName", "*@:"));
    describe(&mut rt, protocol, true, false, ("addNumber:toNumber:", "i@:ii"));
    rt.add_protocol(b"CustomSubProtocol", vec![protocol]).unwrap();

    let class = rt.add_class(b"CustomObject", None, 16, 40).unwrap();
    let meta = class.metaclass(&rt);
    rt.adopt(class, protocol);
    rt.add_ivar(class, b"_foo", 8, b"I");
    define(&mut rt, class, "foo", &["I", "@", ":"], NOTHING);
    define(&mut rt, class, "setFoo:", &["v", "@", ":", "I"], NOTHING);
    define(&mut rt, class, "setBar:", &["v", "@", ":", "i"], NOTHING);
    define(&mut rt, class, "test::test::", &["i", "@", ":", "i", "i", "i", "i"], PRODUCT);
    define(&mut rt, meta, "classFoo", &["I", "#", ":"], NOTHING);
    define(&mut rt, meta, "addNumber:toNumber:", &["i", "#", ":", "i", "i"], ADD);
    define(&mut rt, meta, "test::test::", &["i", "#", ":", "i", "i", "i", "i"], SUM);
    rt.add_class(b"CustomSubclassObject", Some(class), 16, 40).unwrap();
    rt
}

fn class(rt: &Runtime, name: &str) -> AnyClass {
    AnyClass::get(rt, name.as_bytes()).unwrap()
}

fn custom_class(rt: &Runtime) -> AnyClass {
    class(rt, "CustomObject")
}

fn custom_protocol(rt: &Runtime) -> AnyProtocol {
    AnyProtocol::get(rt, b"CustomProtocol").unwrap()
}

fn custom_object(rt: &mut Runtime) -> AnyObject {
    let cls = custom_class(rt);
    rt.new_object(cls)
}

fn is_u32(encoding: &str) -> bool {
    encoding == "I"
}

fn is_u8(encoding: &str) -> bool {
    encoding == "C"
}

#[test]
fn test_selector() {
    let mut rt = Runtime::new();
    for s in [
        "abc",
        "abc:",
        "abc:def:",
        "abc:def:ghi:",
        "functionWithControlPoints::::",
        "initWithControlPoints::::",
        "setFloatValue::",
        "isSupported::",
        "addEventListener:::",
        "test::arg::",
        "test::::with::spaces::",
        "a::b:",
    ] {
        let sel = Sel::register(&mut rt, s.as_bytes());
        let expected = Sel::register(&mut rt, s.as_bytes());
        assert_eq!(sel, expected);
        assert_eq!(std::str::from_utf8(sel.name(&rt)), Ok(s));
    }
}

#[test]
fn test_empty_selector() {
    let mut rt = Runtime::new();
    let s = b"";
    let sel = Sel::register(&mut rt, s);
    assert_eq!(sel.name(&rt), s);
    let s = b":";
    let sel = Sel::register(&mut rt, s);
    assert_eq!(sel.name(&rt), s);
    let s = b"::";
    let sel = Sel::register(&mut rt, s);
    assert_eq!(sel.name(&rt), s);
}

#[test]
fn test_ivar() {
    let rt = fixture();
    let cls = custom_class(&rt);
    let ivar = cls.instance_variable(&rt, b"_foo").unwrap();
    assert_eq!(ivar.name(&rt), b"_foo");
    assert!(is_u32(std::str::from_utf8(ivar.type_encoding(&rt)).unwrap()));
    assert!(ivar.offset(&rt) > 0);
    assert!(cls.instance_variables(&rt).len() > 0);
}

#[test]
fn test_instance_method() {
    let mut rt = fixture();
    let cls = custom_class(&rt);
    let sel = Sel::register(&mut rt, b"foo");
    let method = cls.instance_method(&rt, sel).unwrap();
    assert_eq!(method.name(&rt).name(&rt), b"foo");
    assert_eq!(method.arguments_count(&rt), 2);

    assert!(is_u32(std::str::from_utf8(method.return_type(&rt)).unwrap()));
    assert_eq!(method.argument_type(&rt, 1).unwrap(), b":");

    assert!(cls.instance_methods(&rt).contains(&method));
}

#[test]
fn test_class_method() {
    let mut rt = fixture();
    let cls = custom_class(&rt);
    let sel = Sel::register(&mut rt, b"classFoo");
    let method = cls.class_method(&rt, sel).unwrap();
    assert_eq!(method.name(&rt).name(&rt), b"classFoo");
    assert_eq!(method.arguments_count(&rt), 2);

    assert!(is_u32(std::str::from_utf8(method.return_type(&rt)).unwrap()));
    assert_eq!(method.argument_type(&rt, 1).unwrap(), b":");

    assert!(cls.metaclass(&rt).instance_methods(&rt).contains(&method));
}

#[test]
fn test_class() {
    let mut rt = fixture();
    let cls = custom_class(&rt);
    assert_eq!(cls.name(&rt), b"CustomObject");
    assert!(cls.instance_size(&rt) > 0);
    assert!(cls.superclass(&rt).is_none());

    let foo = Sel::register(&mut rt, b"foo");
    let set_bar = Sel::register(&mut rt, b"setBar:");
    let test_test = Sel::register(&mut rt, b"test::test::");
    let abc = Sel::register(&mut rt, b"abc");
    let add = Sel::register(&mut rt, b"addNumber:toNumber:");
    assert!(cls.responds_to(&rt, foo));
    assert!(cls.responds_to(&rt, set_bar));
    assert!(cls.responds_to(&rt, test_test));
    assert!(!cls.responds_to(&rt, abc));
    assert!(!cls.responds_to(&rt, add));

    assert_eq!(AnyClass::get(&rt, cls.name(&rt)), Some(cls));

    let metaclass = cls.metaclass(&rt);
    // The metaclass of a root class is a subclass of the root class
    assert_eq!(metaclass.superclass(&rt).unwrap(), cls);
    assert!(metaclass.responds_to(&rt, add));
    assert!(metaclass.responds_to(&rt, test_test));
    assert!(metaclass.responds_to(&rt, foo));

    let subclass = class(&rt, "CustomSubclassObject");
    assert_eq!(subclass.superclass(&rt).unwrap(), cls);
}

#[test]
fn test_classes_count() {
    assert!(AnyClass::classes_count(&fixture()) > 0);
}

#[test]
fn test_classes() {
    let classes = AnyClass::classes(&fixture());
    assert!(classes.len() > 0);
}

#[test]
fn test_protocol() {
    let mut rt = fixture();
    let proto = custom_protocol(&rt);
    assert_eq!(proto.name(&rt), b"CustomProtocol");
    let cls = custom_class(&rt);
    assert!(cls.conforms_to(&rt, proto));

    let desc = MethodDescription {
        sel: Sel::register(&mut rt, b"setBar:"),
        types: b"v@:i".to_vec(),
    };
    assert_eq!(&proto.method_descriptions(&rt, true), &[desc]);
    let desc = MethodDescription {
        sel: Sel::register(&mut rt, b"getName"),
        types: b"*@:".to_vec(),
    };
    assert_eq!(&proto.method_descriptions(&rt, false), &[desc]);
    let desc = MethodDescription {
        sel: Sel::register(&mut rt, b"addNumber:toNumber:"),
        types: b"i@:ii".to_vec(),
    };
    assert_eq!(&proto.class_method_descriptions(&rt, true), &[desc]);
    assert_eq!(&proto.class_method_descriptions(&rt, false), &[]);

    assert!(cls.adopted_protocols(&rt).contains(&proto));
}

#[test]
fn test_protocol_method() {
    let mut rt = fixture();
    let cls = custom_class(&rt);
    let sel = Sel::register(&mut rt, b"addNumber:toNumber:");
    let result = send(&rt, cls.as_ref(), sel, &[1, 2]);
    assert_eq!(result, Answer::Number(3));
}

#[test]
fn class_self() {
    let mut rt = fixture();
    let cls = class(&rt, "NSObject");
    let sel = Sel::register(&mut rt, b"self");
    let result = send(&rt, cls.as_ref(), sel, &[]);
    assert_eq!(Answer::Object(cls.as_ref()), result);
}

#[test]
fn test_subprotocols() {
    let rt = fixture();
    let sub_proto = AnyProtocol::get(&rt, b"CustomSubProtocol").unwrap();
    let super_proto = custom_protocol(&rt);
    assert!(sub_proto.conforms_to(&rt, super_proto));
    assert_eq!(sub_proto.adopted_protocols(&rt)[0], super_proto);
}

#[test]
fn test_protocols() {
    assert!(AnyProtocol::protocols(&fixture()).len() > 0);
}

#[test]
fn test_object() {
    let mut rt = fixture();
    let obj = custom_object(&mut rt);
    let cls = custom_class(&rt);
    assert_eq!(obj.class(&rt), cls);

    let ivar = cls.instance_variable(&rt, b"_foo").unwrap();

    assert_eq!(ivar.load_ptr(&rt, obj, 4, "I", is_u32, true).unwrap(), 8);
    let place = ivar.load_mut(&mut rt, obj, 4, "I", is_u32, true).unwrap();
    place.copy_from_slice(&4u32.to_ne_bytes());
    let result = ivar.load(&rt, obj, 4, "I", is_u32, true).unwrap();
    assert_eq!(result, 4u32.to_ne_bytes());
}

#[test]
fn test_object_ivar_unknown() {
    let rt = fixture();
    let cls = custom_class(&rt);
    assert_eq!(cls.instance_variable(&rt, b"unknown"), None);
}

#[test]
fn test_no_ivars() {
    let mut rt = fixture();
    let ns_object = class(&rt, "NSObject");
    let cls = rt.add_class(b"NoIvarObject", Some(ns_object), 8, 40).unwrap();
    assert_eq!(cls.instance_variables(&rt).len(), 0);
}

#[test]
fn test_object_ivar_wrong_type() {
    let mut rt = fixture();
    let obj = custom_object(&mut rt);
    let cls = custom_class(&rt);
    let ivar = cls.instance_variable(&rt, b"_foo").unwrap();
    let error = ivar.load(&rt, obj, 1, "C", is_u8, true).unwrap_err();
    assert_eq!(
        error.message(),
        "wrong encoding. Tried to retrieve ivar with encoding I, but the encoding of the given type was C"
    );
    assert!(ivar.load_ptr(&rt, obj, 1, "C", is_u8, true).is_err());
    assert!(ivar.load_mut(&mut rt, obj, 1, "C", is_u8, true).is_err());
}

#[test]
fn test_debug_display() {
    let mut rt = fixture();
    let sel = Sel::register(&mut rt, b"abc:");
    assert_eq!(sel.display(&rt), "abc:");
    assert_eq!(sel.debug(&rt), "Sel(\"abc:\")");
    let cls = custom_class(&rt);
    assert_eq!(cls.display(&rt), "CustomObject");
    assert_eq!(cls.debug(&rt), "AnyClass { name: \"CustomObject\", .. }");
    let protocol = custom_protocol(&rt);
    assert_eq!(protocol.display(&rt), "CustomProtocol");
    assert_eq!(protocol.debug(&rt), "AnyProtocol { name: \"CustomProtocol\", .. }");

    let object = custom_object(&mut rt);
    let address: usize = 0x6000_0123_4560;
    assert_eq!(
        format!("CustomObject({})", object.debug(&rt, address)),
        format!("CustomObject(<CustomObject: {:#x}>)", address)
    );
}

#[test]
fn test_multiple_colon() {
    let mut rt = fixture();
    let cls = custom_class(&rt);
    let sel = Sel::register(&mut rt, b"test::test::");
    let res = send(&rt, cls.as_ref(), sel, &[1, 2, 3, 4]);
    assert_eq!(res, Answer::Number(10));

    let obj = custom_object(&mut rt);
    let res = send(&rt, obj, sel, &[1, 2, 3, 4]);
    assert_eq!(res, Answer::Number(24));
}

#[test]
fn test_non_utf8_roundtrip() {
    let mut rt = fixture();
    // Some invalid UTF-8 character
    let s = b"\x9F";

    let sel = Sel::register(&mut rt, s);
    assert_eq!(sel.name(&rt), s);
    assert_eq!(sel.display(&rt), char::REPLACEMENT_CHARACTER.to_string());

    let ns_object = class(&rt, "NSObject");
    let cls = rt.add_class(s, Some(ns_object), 8, 40).unwrap();
    assert_eq!(cls.name(&rt), s);
    assert_eq!(cls.display(&rt), char::REPLACEMENT_CHARACTER.to_string());

    let cls_runtime = AnyClass::get(&rt, s).unwrap();
    assert_eq!(cls, cls_runtime);
}

#[test]
fn class_is_object() {
    let rt = fixture();
    let cls = class(&rt, "NSObject");
    let obj: AnyObject = cls.as_ref();
    let superclass = obj.class(&rt);
    assert!(superclass.conforms_to(&rt, AnyProtocol::get(&rt, b"NSObject").unwrap()));

    // Classes are NSObject subclasses.
    let ns_obj = obj.downcast_ref(&rt, cls).unwrap();
    assert_eq!(ns_obj, obj);
}

#[test]
fn protocol_is_object() {
    let rt = fixture();
    let protocol = AnyProtocol::get(&rt, b"NSObject").unwrap();
    let retained = protocol.as_ref();
    assert_eq!(retained, AnyObject::Protocol(protocol));

    // Protocols are NSObject subclasses.
    let obj = retained.downcast_ref(&rt, class(&rt, "NSObject")).unwrap();
    assert_eq!(obj, obj);
    assert_eq!(obj.downcast_ref(&rt, custom_class(&rt)), None);
}

#[test]
fn handles_are_send_and_sync() {
    fn assert_send_sync<T: Send + Sync>() {}
    assert_send_sync::<AnyClass>();
    assert_send_sync::<Ivar>();
    assert_send_sync::<Method>();
    assert_send_sync::<AnyProtocol>();
    assert_send_sync::<Sel>();
}

#[test]
fn selectors_are_equal_where_their_names_are() {
    let mut rt = Runtime::new();
    let a = Sel::register(&mut rt, b"a");
    let b = Sel::register(&mut rt, b"b");
    assert_ne!(a, b);
    assert_eq!(Sel::register(&mut rt, b"a"), a);
    assert_eq!(a.name(&rt), b"a");
}

#[test]
fn selectors_take_an_argument_for_each_colon() {
    let mut rt = Runtime::new();
    for (name, n) in [("", 0), ("abc", 0), ("abc:", 1), ("test::test::", 4), ("a:b", 1)] {
        let sel = Sel::register(&mut rt, name.as_bytes());
        assert_eq!(sel.number_of_arguments(&rt), n);
    }
}

#[test]
fn bytes_that_are_not_text_are_replaced() {
    let mut rt = Runtime::new();
    for (name, shown) in [
        (&b"caf\xC3\xA9:"[..], "caf\u{E9}:"),
        (&b"\xC3"[..], "\u{FFFD}"),
        (&b"a\xFFb"[..], "a\u{FFFD}b"),
        (&b"\xC3\xA9\xE2x"[..], "\u{E9}\u{FFFD}x"),
    ] {
        let sel = Sel::register(&mut rt, name);
        assert_eq!(sel.display(&rt), shown);
        let class = rt.add_class(name, None, 8, 8).unwrap();
        assert_eq!(class.display(&rt), shown);
        let object = rt.new_object(class);
        assert_eq!(object.debug(&rt, 16), format!("<{shown}: 0x10>"));
        let protocol = rt.add_protocol(name, vec![]).unwrap();
        assert_eq!(protocol.display(&rt), shown);
    }
}

#[test]
fn names_are_escaped_for_developers() {
    let mut rt = Runtime::new();
    let sel = Sel::register(&mut rt, b"a\"b\\c\td\n\x01\xFFe'");
    assert_eq!(sel.debug(&rt), r#"Sel("a\"b\\c\td\n\x01\xffe\'")"#);
}

#[test]
fn methods_have_their_types_in_order() {
    let mut rt = fixture();
    let sel = Sel::register(&mut rt, b"setFoo:");
    let method = custom_class(&rt).instance_method(&rt, sel).unwrap();
    assert_eq!(method.types(&rt), types(&["v", "@", ":", "I"]));
    assert_eq!(method.return_type(&rt), b"v");
    assert_eq!(method.argument_type(&rt, 2), Some(&b"I"[..]));
    assert_eq!(method.argument_type(&rt, 3), None);
    assert_eq!(method.argument_type(&rt, usize::MAX), None);
}

#[test]
fn type_encodings_must_be_there_and_be_text() {
    assert_eq!(Method::type_encoding(None), Err(TypesError::Missing));
    assert_eq!(Method::type_encoding(Some(b"v@:\xFF")), Err(TypesError::NotUtf8));
    assert_eq!(Method::type_encoding(Some(b"v@:i")), Ok("v@:i".to_string()));
}

#[test]
fn implementations_are_set_and_exchanged() {
    let mut rt = fixture();
    let foo = Sel::register(&mut rt, b"foo");
    let test = Sel::register(&mut rt, b"test::test::");
    let cls = custom_class(&rt);
    let m1 = cls.instance_method(&rt, foo).unwrap();
    let m2 = cls.instance_method(&rt, test).unwrap();
    assert_eq!(m1.set_implementation(&mut rt, ADD), NOTHING);
    assert_eq!(m1.implementation(&rt), ADD);
    m1.exchange_implementation(&mut rt, m2);
    assert_eq!(m1.implementation(&rt), PRODUCT);
    assert_eq!(m2.implementation(&rt), ADD);
    m1.exchange_implementation(&mut rt, m2);
    assert_eq!(m1.implementation(&rt), ADD);
    assert_eq!(cls.instance_method(&rt, foo), Some(m1));
    m1.exchange_implementation(&mut rt, m1);
    assert_eq!(m1.implementation(&rt), ADD);
    let imp = m1.implementation(&rt);
    let previous = m2.set_implementation(&mut rt, imp);
    m1.set_implementation(&mut rt, previous);
    assert_eq!((m1.implementation(&rt), m2.implementation(&rt)), (PRODUCT, ADD));
}

#[test]
fn nearest_method_wins() {
    let mut rt = fixture();
    let sub = class(&rt, "CustomSubclassObject");
    let foo = Sel::register(&mut rt, b"foo");
    let inherited = sub.instance_method(&rt, foo).unwrap();
    assert_eq!(custom_class(&rt).instance_method(&rt, foo), Some(inherited));
    assert_eq!(sub.own_instance_method(&rt, foo), None);
    let own = define(&mut rt, sub, "foo", &["I", "@", ":"], ADD);
    assert_eq!(sub.instance_method(&rt, foo), Some(own));
    assert_eq!(custom_class(&rt).instance_method(&rt, foo), Some(inherited));
    assert_eq!(rt.add_method(sub, foo, vec![], vec![], ADD), None);
}

#[test]
fn class_methods_are_looked_up_on_metaclasses() {
    let mut rt = fixture();
    let sub = class(&rt, "CustomSubclassObject");
    let add = Sel::register(&mut rt, b"addNumber:toNumber:");
    let method = sub.class_method(&rt, add);
    assert!(method.is_some());
    assert_eq!(sub.metaclass(&rt).class_method(&rt, add), method);
    assert_eq!(sub.metaclass(&rt).instance_method(&rt, add), method);
    assert_eq!(sub.instance_method(&rt, add), None);
}

#[test]
fn metaclasses_follow_their_classes() {
    let rt = fixture();
    let cls = custom_class(&rt);
    let sub = class(&rt, "CustomSubclassObject");
    let meta = sub.metaclass(&rt);
    assert!(!sub.is_metaclass());
    assert!(meta.is_metaclass());
    assert_eq!(meta.name(&rt), b"CustomSubclassObject");
    assert_eq!(meta.superclass(&rt), Some(cls.metaclass(&rt)));
    assert_eq!(meta.metaclass(&rt), cls.metaclass(&rt));
    assert_eq!(cls.metaclass(&rt).metaclass(&rt), cls.metaclass(&rt));
    assert_eq!(meta.instance_size(&rt), 40);
}

#[test]
fn descent_leads_to_the_root() {
    let rt = fixture();
    let cls = custom_class(&rt);
    let sub = class(&rt, "CustomSubclassObject");
    assert!(sub.descends_from(&rt, sub));
    assert!(sub.descends_from(&rt, cls));
    assert!(!cls.descends_from(&rt, sub));
    assert!(sub.metaclass(&rt).descends_from(&rt, cls));
    assert!(!sub.descends_from(&rt, class(&rt, "NSObject")));
}

#[test]
fn class_names_are_taken_once() {
    let mut rt = fixture();
    let n = AnyClass::classes_count(&rt);
    assert_eq!(rt.add_class(b"CustomObject", None, 8, 40), None);
    assert_eq!(AnyClass::classes_count(&rt), n);
    assert_eq!(AnyClass::classes(&rt).len(), n);
    assert_eq!(AnyClass::get(&rt, b"Missing"), None);
    assert_eq!(AnyProtocol::get(&rt, b"Missing"), None);
    assert_eq!(rt.add_protocol(b"CustomProtocol", vec![]), None);
    for cls in AnyClass::classes(&rt) {
        assert_eq!(AnyClass::get(&rt, cls.name(&rt)), Some(cls));
    }
}

#[test]
fn instance_variables_are_inherited() {
    let mut rt = fixture();
    let sub = class(&rt, "CustomSubclassObject");
    let foo = sub.instance_variable(&rt, b"_foo").unwrap();
    assert_eq!(foo.debug(&rt), "Ivar { name: \"_foo\", offset: 8, type_encoding: \"I\", .. }");
    let own = rt.add_ivar(sub, b"_foo", 12, b"S");
    assert_eq!(sub.instance_variable(&rt, b"_foo"), Some(own));
    assert_eq!(custom_class(&rt).instance_variable(&rt, b"_foo"), Some(foo));
    assert_eq!(sub.class_variable(&rt, b"_foo"), Some(foo));
    assert_eq!(sub.class_variable(&rt, b"_none"), None);
    let odd = rt.add_ivar(sub, b"_odd", isize::MIN, b"i");
    let shown = odd.debug(&rt);
    assert_eq!(
        shown,
        format!("Ivar {{ name: \"_odd\", offset: {}, type_encoding: \"i\", .. }}", isize::MIN)
    );
}

#[test]
fn conformance_is_inherited_by_protocols_only() {
    let mut rt = fixture();
    let sub_proto = AnyProtocol::get(&rt, b"CustomSubProtocol").unwrap();
    let proto = custom_protocol(&rt);
    let top = rt.add_protocol(b"Top", vec![sub_proto]).unwrap();
    assert!(top.conforms_to(&rt, proto));
    assert!(top.conforms_to(&rt, top));
    assert!(!proto.conforms_to(&rt, top));
    assert!(top.is_equal(&rt, top));
    assert!(!top.is_equal(&rt, proto));
    let sub = class(&rt, "CustomSubclassObject");
    assert!(!sub.conforms_to(&rt, proto));
    rt.adopt(sub, top);
    assert!(sub.conforms_to(&rt, proto));
}

#[test]
fn descriptions_need_both_parts() {
    let sel = Sel { index: 0 };
    let whole = RawDescription { name: Some(sel), types: Some(b"v@:".to_vec()) };
    let expected = MethodDescription { sel, types: b"v@:".to_vec() };
    assert_eq!(MethodDescription::from_raw(&whole), Some(expected));
    let nameless = RawDescription { name: None, types: Some(b"v@:".to_vec()) };
    assert_eq!(MethodDescription::from_raw(&nameless), None);
    let typeless = RawDescription { name: Some(sel), types: None };
    assert_eq!(MethodDescription::from_raw(&typeless), None);

    assert_eq!(MethodDescription::all_from_raw(None), Ok(vec![]));
    assert_eq!(MethodDescription::all_from_raw(Some(&vec![])), Ok(vec![]));
    let mut list = vec![whole];
    assert_eq!(MethodDescription::all_from_raw(Some(&list)).unwrap().len(), 1);
    list.push(typeless);
    assert_eq!(MethodDescription::all_from_raw(Some(&list)), Err(IncompleteDescription));
}

#[test]
fn classes_of_objects_change() {
    let mut rt = fixture();
    let obj = custom_object(&mut rt);
    let cls = custom_class(&rt);
    let sub = class(&rt, "CustomSubclassObject");
    assert!(!obj.is_kind_of_class(&rt, sub));
    assert_eq!(obj.set_class(&mut rt, sub), cls);
    assert_eq!(obj.class(&rt), sub);
    assert!(obj.is_kind_of_class(&rt, sub));
    assert!(obj.is_kind_of_class(&rt, cls));
    assert_eq!(obj.set_class(&mut rt, cls), sub);
    assert_eq!(obj.class(&rt), cls);
}

#[test]
fn classes_of_classes_and_protocols_change() {
    let mut rt = fixture();
    let cls = custom_class(&rt);
    let sub = class(&rt, "CustomSubclassObject");
    let add = Sel::register(&mut rt, b"addNumber:toNumber:");
    let (meta, sub_meta) = (cls.metaclass(&rt), sub.metaclass(&rt));
    let method = define(&mut rt, sub_meta, "addNumber:toNumber:", &["i", "#", ":", "i", "i"], SUM);
    assert_eq!(cls.as_ref().set_class(&mut rt, sub_meta), meta);
    assert_eq!(cls.as_ref().class(&rt), sub_meta);
    assert_eq!(cls.metaclass(&rt), sub_meta);
    assert_eq!(cls.class_method(&rt, add), Some(method));
    assert_eq!(sub.as_ref().class(&rt), sub_meta);
    assert_eq!(meta.class_method(&rt, add), meta.instance_method(&rt, add));
    assert_eq!(cls.as_ref().set_class(&mut rt, meta), sub_meta);
    assert_eq!(cls.as_ref().class(&rt), meta);
    let top = meta.metaclass(&rt);
    assert_eq!(meta.as_ref().set_class(&mut rt, sub_meta), top);
    assert_eq!(meta.metaclass(&rt), sub_meta);

    let proto = custom_protocol(&rt).as_ref();
    let other = AnyProtocol::get(&rt, b"NSObject").unwrap().as_ref();
    let protocol_class = class(&rt, "Protocol");
    let special = rt.add_class(b"SpecialProtocol", Some(protocol_class), 96, 40).unwrap();
    assert_eq!(proto.set_class(&mut rt, special), protocol_class);
    assert_eq!(proto.class(&rt), special);
    assert_eq!(other.class(&rt), protocol_class);
    assert!(proto.is_kind_of_class(&rt, protocol_class));
}

#[test]
fn unchecked_encodings_are_not_tested() {
    let mut rt = fixture();
    let obj = custom_object(&mut rt);
    let cls = custom_class(&rt);
    let ivar = cls.instance_variable(&rt, b"_foo").unwrap();
    assert!(ivar.debug_assert_encoding(&rt, "C", is_u8, false).is_ok());
    assert_eq!(ivar.load_ptr(&rt, obj, 1, "C", is_u8, false).unwrap(), 8);
    ivar.load_mut(&mut rt, obj, 1, "C", is_u8, false).unwrap()[0] = 7;
    assert_eq!(ivar.load(&rt, obj, 1, "C", is_u8, false).unwrap(), [7]);
    assert_eq!(obj.get_ivar(&rt, "_foo", 1, "C", is_u8, false).unwrap(), [7]);
    assert!(obj.get_mut_ivar(&mut rt, "_foo", 1, "C", is_u8, false).is_ok());
    let bad = rt.add_ivar(cls, b"_bad", 8, b"\xFF");
    assert!(bad.load(&rt, obj, 4, "I", is_u32, false).is_ok());
}

#[test]
fn written_bytes_are_read_back() {
    let mut rt = fixture();
    let first = custom_object(&mut rt);
    let second = custom_object(&mut rt);
    first.get_mut_ivar(&mut rt, "_foo", 4, "I", is_u32, true).unwrap().copy_from_slice(&[1, 2, 3, 4]);
    assert_eq!(first.get_ivar(&rt, "_foo", 4, "I", is_u32, true).unwrap(), [1, 2, 3, 4]);
    assert_eq!(second.get_ivar(&rt, "_foo", 4, "I", is_u32, true).unwrap(), [0, 0, 0, 0]);
    let cls = custom_class(&rt);
    let other = rt.add_ivar(cls, b"_bar", 12, b"I");
    assert_eq!(other.load(&rt, first, 4, "I", is_u32, true).unwrap(), [0, 0, 0, 0]);
}

#[test]
fn unknown_instance_variables_are_named() {
    let mut rt = fixture();
    let obj = custom_object(&mut rt);
    assert!(obj.lookup_instance_variable_dynamically(&rt, "_foo").is_ok());
    let error = obj.lookup_instance_variable_dynamically(&rt, "unknown").unwrap_err();
    assert_eq!(error.message(), "ivar \"unknown\" not found on class CustomObject");
    let error = obj.lookup_instance_variable_dynamically(&rt, "a\0b").unwrap_err();
    assert!(matches!(error, LookupError::InteriorNul));
    let error = obj.get_ivar(&rt, "unknown", 4, "I", is_u32, true).unwrap_err();
    assert!(matches!(error, IvarError::Lookup(LookupError::NotFound { .. })));
    let error = obj.get_ivar(&rt, "_foo", 1, "C", is_u8, true).unwrap_err();
    assert!(matches!(error, IvarError::Encoding(EncodingError::Wrong { .. })));
    let error = obj.get_mut_ivar(&mut rt, "_foo", 1, "C", is_u8, true).unwrap_err();
    assert!(matches!(error, IvarError::Encoding(EncodingError::Wrong { .. })));
}

#[test]
fn encodings_must_be_text() {
    let mut rt = fixture();
    let cls = custom_class(&rt);
    let ivar = rt.add_ivar(cls, b"_bad", 8, b"\xFF");
    let error = ivar.debug_assert_encoding(&rt, "I", is_u32, true).unwrap_err();
    assert!(matches!(error, EncodingError::NotUtf8));
    assert_eq!(error.message(), "encoding must be UTF-8");
}

#[test]
fn offsets_lead_both_ways() {
    assert_eq!(AnyObject::ivar_at_offset(100, 8), 108);
    assert_eq!(AnyObject::ivar_at_offset(100, -8), 92);
    assert_eq!(AnyObject::ivar_at_offset(usize::MAX / 2 + 1, isize::MIN), 0);
}

#[test]
fn signatures_are_verified() {
    let mut rt = fixture();
    let cls = custom_class(&rt);
    let same = |a: &[u8], b: &[u8]| a == b;
    let set_bar = Sel::register(&mut rt, b"setBar:");
    let abc = Sel::register(&mut rt, b"abc");
    assert_eq!(cls.verify_sel(&rt, set_bar, &types(&["i"]), b"v", same), Ok(()));
    assert_eq!(
        cls.verify_sel(&rt, abc, &types(&["i"]), b"v", same),
        Err(VerificationError::MethodNotFound)
    );
    assert_eq!(
        cls.verify_sel(&rt, set_bar, &types(&["i"]), b"i", same),
        Err(VerificationError::MismatchedReturn)
    );
    assert_eq!(
        cls.verify_sel(&rt, set_bar, &types(&["f"]), b"v", same),
        Err(VerificationError::MismatchedArgument(0))
    );
    for arguments in [types(&[]), types(&["i", "i"])] {
        assert_eq!(
            cls.verify_sel(&rt, set_bar, &arguments, b"v", same),
            Err(VerificationError::MismatchedArgumentsCount)
        );
    }
    let none = define(&mut rt, cls, "none", &["v"], NOTHING);
    let sel = none.name(&rt);
    assert_eq!(cls.verify_sel(&rt, sel, &types(&[]), b"v", same), Ok(()));
    assert_eq!(
        cls.verify_sel(&rt, sel, &types(&["i"]), b"v", same),
        Err(VerificationError::MismatchedArgumentsCount)
    );
}

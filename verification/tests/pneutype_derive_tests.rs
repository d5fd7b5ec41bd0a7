use pneutype::as_str::AsStr;
use pneutype::free_standing::FreeStandingStr;
use pneutype::gateway::{deserialize_pneu_str, deserialize_pneu_string, serialize_pneu_string};
use pneutype::lowercase::{Lowercase, LowercaseStr};
use pneutype::pneu_str::PneuStr;
use pneutype::pneu_string::PneuString;
use pneutype::url::{URLStr, URL};
use pneutype::value::{ValueStr, ValueString};

#[test]
fn test_pneu_string_and_pneu_str_1() {
    let t0 = Lowercase::try_new_str("abcd").expect("pass");
    println!("t0 (as Debug): {:?}", t0);
    assert_eq!(t0.as_str().len(), t0.as_str().len());

    println!("t0 (as Display): {}", t0.as_str());

    Lowercase::try_new("abcdE".to_string()).expect_err("pass");
    Lowercase::try_new_str("abcdE").expect_err("pass");
    LowercaseStr::new_ref("abcdE").expect_err("pass");

    let r0 = t0.as_pneu_str();
    println!("r0 (as Debug): {:?}", r0);
    println!("r0 (as Display): {}", r0.as_str());

    let t1 = Lowercase::try_new_str("abcd").expect("pass");
    assert_eq!(t0, t1);

    let r1 = LowercaseStr::new_ref("abcd").expect("pass");
    assert_eq!(r0, r1);
    assert_eq!(t1.as_pneu_str(), r1);

    let r2 = LowercaseStr::new_ref("abcd").expect("pass");
    assert_eq!(r0, r2);

    let t2 = r0.to_owned();
    assert_eq!(t0, t2);

    let s0 = t0.into_string();
    assert_eq!(s0.as_str(), t2.as_str());
}

fn do_stuff_with_lowercase_str(_: LowercaseStr<'_>) {
    // Actually do nothing, ha ha ha!
}

#[test]
fn test_pneu_string_borrow() {
    let t0 = Lowercase::try_new_str("abcd").expect("pass");
    do_stuff_with_lowercase_str(t0.as_pneu_str());
    let r0 = &t0;
    do_stuff_with_lowercase_str(r0.as_pneu_str());
}

#[test]
fn test_pneu_string_and_pneu_str_2() {
    const INVALID_URL_STR_V: &[&str] =
        &["xyz", "http::blah/123", "http::/blah/123", "blah/123?a=b"];

    for &invalid_url_str in INVALID_URL_STR_V.iter() {
        println!("invalid_url_str: {:?}", invalid_url_str);
        URL::try_new_str(invalid_url_str).expect_err("pass");
        URL::try_new(invalid_url_str.to_string()).expect_err("pass");
        URLStr::new_ref(invalid_url_str).expect_err("pass");
    }

    const URL_STR_V: &[&str] = &[
        "https://no.golf:12345/at/all?abc=pqr#tag1",
        "https://no.golf:12345/at/all?abc=pqr",
        "https://no.golf:12345/at/all#tag1",
        "https://no.golf:12345/at/all",
        "https://no.golf:12345?abc=pqr#tag1",
        "https://no.golf:12345?abc=pqr",
        "https://no.golf:12345#tag1",
        "https://no.golf:12345",
        "https://no.golf/at/all?abc=pqr#tag1",
        "https://no.golf/at/all?abc=pqr",
        "https://no.golf/at/all#tag1",
        "https://no.golf/at/all",
        "https://no.golf?abc=pqr#tag1",
        "https://no.golf?abc=pqr",
        "https://no.golf#tag1",
        "https://no.golf",
        "file:///a/b/c",
    ];

    for &url_str in URL_STR_V.iter() {
        URL::try_new_str(url_str).expect("pass");
        let u0 = URL::try_new(url_str.to_string()).expect("pass");
        let u1 = URLStr::new_ref(url_str).expect("pass");
        assert_eq!(u0.as_url_str(), u1);
        URLStr::new_ref(url_str).expect("pass");

        let t0 = URL::try_new_str(url_str).expect("pass");
        println!("t0: {:?}", t0);

        let r0 = t0.as_url_str();
        println!("r0: {:?}", r0);

        assert_eq!(t0.as_url_str().scheme(), r0.scheme());
        assert_eq!(t0.as_url_str().host(), r0.host());
        assert_eq!(t0.as_url_str().port(), r0.port());
        assert_eq!(t0.as_url_str().path(), r0.path());
        assert_eq!(t0.as_url_str().query(), r0.query());
        assert_eq!(t0.as_url_str().fragment(), r0.fragment());

        let t1 = URL::try_new_str(url_str).expect("pass");
        assert_eq!(t0, t1);

        let r1 = URLStr::new_ref(url_str).expect("pass");
        assert_eq!(r0, r1);

        let r2 = URLStr::new_ref(url_str).expect("pass");
        assert_eq!(r0, r2);

        let t2 = r0.to_owned();
        assert_eq!(t0, t2);

        let s0 = t0.into_string();
        assert_eq!(s0.as_str(), t2.as_str());
    }
}

fn do_stuff(lowercase_str: LowercaseStr<'_>) {
    println!("lowercase_str: {:?}", lowercase_str);
}

#[test]
fn test_pneu_string_and_pneu_str_3() {
    let lowercase = Lowercase::try_new_str("xyz").expect("pass");
    do_stuff(lowercase.as_pneu_str());
}

#[test]
fn test_pneu_string_and_pneu_str_5() {
    let x = FreeStandingStr::new_ref("stuff").expect("pass");
    assert_eq!(x.as_str(), "stuff");
}

/// Build a one-level JSON object whose fields are the given text values.
fn json_object_of(fields: &[(&str, &str)]) -> String {
    let mut m = serde_json::Map::new();
    for &(k, v) in fields.iter() {
        m.insert(k.to_string(), serde_json::Value::String(v.to_string()));
    }
    serde_json::to_string(&serde_json::Value::Object(m)).expect("pass")
}

/// Pull the named text field back out of a JSON object.
fn json_field<'a>(parsed: &'a serde_json::Value, name: &str) -> &'a str {
    parsed.get(name).expect("pass").as_str().expect("pass")
}

#[test]
fn test_pneu_string_and_pneu_str_serde() {
    // Verify that the validation works as expected when deserializing.
    {
        let json = json_object_of(&[("lowercase", "blahblah"), ("lowercase_str", "heyhey")]);
        let parsed: serde_json::Value = serde_json::from_str(&json).expect("pass");
        let s: Lowercase =
            deserialize_pneu_string(json_field(&parsed, "lowercase").to_string()).expect("pass");
        let r: LowercaseStr<'_> =
            deserialize_pneu_str(json_field(&parsed, "lowercase_str")).expect("pass");
        assert_eq!(s.as_str(), "blahblah");
        assert_eq!(r.as_str(), "heyhey");
    }
    {
        let json = json_object_of(&[("lowercase", "NOT LOWERCASE"), ("lowercase_str", "heyhey")]);
        let parsed: serde_json::Value = serde_json::from_str(&json).expect("pass");
        let err = deserialize_pneu_string::<Lowercase>(json_field(&parsed, "lowercase").to_string())
            .expect_err("pass");
        println!("deserialization err (expected): {}", err);
    }
    {
        let json = json_object_of(&[("lowercase", "blahblah"), ("lowercase_str", "I AM YELLING")]);
        let parsed: serde_json::Value = serde_json::from_str(&json).expect("pass");
        let err = deserialize_pneu_str::<LowercaseStr<'_>>(json_field(&parsed, "lowercase_str"))
            .expect_err("pass");
        println!("deserialization err (expected): {}", err);
    }
    {
        let json =
            json_object_of(&[("lowercase", "NOT LOWERCASE"), ("lowercase_str", "I AM YELLING")]);
        let parsed: serde_json::Value = serde_json::from_str(&json).expect("pass");
        deserialize_pneu_string::<Lowercase>(json_field(&parsed, "lowercase").to_string())
            .expect_err("pass");
        deserialize_pneu_str::<LowercaseStr<'_>>(json_field(&parsed, "lowercase_str"))
            .expect_err("pass");
    }
}

#[test]
fn test_pneu_str_with_generics() {
    type I32Str<'a> = ValueStr<'a, i32>;

    I32Str::new_ref("").expect_err("pass");
    I32Str::new_ref("abc").expect_err("pass");
    I32Str::new_ref("12.34").expect_err("pass");

    let i = I32Str::new_ref("123").expect("pass");
    assert_eq!(i.as_str(), "123");
    assert_eq!(i.to_value(), 123i32);

    type BoolStr<'a> = ValueStr<'a, bool>;

    BoolStr::new_ref("").expect_err("pass");
    BoolStr::new_ref("blah").expect_err("pass");
    BoolStr::new_ref("1").expect_err("pass");

    let b = BoolStr::new_ref("true").expect("pass");
    assert_eq!(b.as_str(), "true");
    assert_eq!(b.to_value(), true);
}

#[test]
fn test_pneu_string_with_generics() {
    type I32String = ValueString<i32>;
    type I32Str<'a> = ValueStr<'a, i32>;

    I32String::try_new_str("").expect_err("pass");
    I32String::try_new_str("abc").expect_err("pass");
    I32String::try_new_str("12.34").expect_err("pass");

    let mut i = I32String::try_new_str("123").expect("pass");
    assert_eq!(i.as_pneu_str(), I32Str::new_ref("123").expect("pass"));
    assert_eq!(i.as_str(), "123");
    assert_eq!(i.to_value(), 123i32);
    i.set_value(&456i32);
    assert_eq!(i.as_pneu_str(), I32Str::new_ref("456").expect("pass"));
    assert_eq!(i.as_str(), "456");
    assert_eq!(i.to_value(), 456i32);

    type BoolString = ValueString<bool>;
    type BoolStr<'a> = ValueStr<'a, bool>;

    BoolString::try_new_str("").expect_err("pass");
    BoolString::try_new_str("blah").expect_err("pass");
    BoolString::try_new_str("1").expect_err("pass");

    let mut i = BoolString::try_new_str("true").expect("pass");
    assert_eq!(i.as_pneu_str(), BoolStr::new_ref("true").expect("pass"));
    assert_eq!(i.as_str(), "true");
    assert_eq!(i.to_value(), true);
    i.set_value(&false);
    assert_eq!(i.as_pneu_str(), BoolStr::new_ref("false").expect("pass"));
    assert_eq!(i.as_str(), "false");
    assert_eq!(i.to_value(), false);
}

#[test]
fn test_pneu_string_with_generics_serde() {
    type I32String = ValueString<i32>;
    type I32Str<'a> = ValueStr<'a, i32>;

    {
        let i = I32String::try_new_str("123").expect("pass");
        println!("i: {:?}", i);
        assert_eq!(i.as_pneu_str(), I32Str::new_ref("123").expect("pass"));
        let i_json =
            serde_json::to_string(&serde_json::Value::String(serialize_pneu_string(&i).to_string()))
                .expect("pass");
        println!("i_json: {}", i_json);
        assert_eq!(i_json, "\"123\"");
        let i_text: &str = serde_json::from_str(&i_json).expect("pass");
        let i_deserialized: I32String = deserialize_pneu_string(i_text.to_string()).expect("pass");
        println!("i_deserialized: {:?}", i_deserialized);
        assert_eq!(i_deserialized, i);
    }

    {
        let i = I32Str::new_ref("123").expect("pass");
        println!("i: {:?}", i);
        let i_json = serde_json::to_string(&serde_json::Value::String(i.as_str().to_string()))
            .expect("pass");
        println!("i_json: {}", i_json);
        assert_eq!(i_json, "\"123\"");
        let i_text: &str = serde_json::from_str(&i_json).expect("pass");
        let i_deserialized: I32Str<'_> = deserialize_pneu_str(i_text).expect("pass");
        println!("i_deserialized: {:?}", i_deserialized);
        assert_eq!(i_deserialized, i);
    }
}

#[test]
fn test_pneu_str_trait() {
    let x = <LowercaseStr<'_> as PneuStr>::new_ref("abcxyz").expect("pass");
    assert_eq!(<LowercaseStr<'_> as AsStr>::as_str(&x), "abcxyz");

    let y = <LowercaseStr<'_> as pneutype::new_ref_unchecked::NewRefUnchecked>::new_ref_unchecked(
        "abcpqr",
    );
    assert_eq!(<LowercaseStr<'_> as AsStr>::as_str(&y), "abcpqr");
}

fn test_pneu_str_trait_case<'a, T>(valid_str: &'a str, invalid_str: &'a str)
where
    T: std::fmt::Debug + PneuStr<'a>,
    <T as pneutype::validate::Validate>::Error: std::fmt::Debug,
{
    let x = T::new_ref(valid_str).expect("pass");
    assert_eq!(x.as_str(), valid_str);

    T::new_ref(invalid_str).expect_err("pass");

    let y = T::new_ref_unchecked(valid_str);
    assert_eq!(y.as_str(), valid_str);
}

fn test_pneu_string_trait_case<T>(valid_str: &str, invalid_str: &str)
where
    T: std::fmt::Debug + PneuString,
    <T as pneutype::validate::Validate>::Error: std::fmt::Debug,
{
    let x = T::try_new(valid_str.to_string()).expect("pass");
    assert_eq!(x.as_str(), valid_str);
    let x_string = x.into_string();
    assert_eq!(x_string.as_str(), valid_str);

    T::try_new(invalid_str.to_string()).expect_err("pass");
    T::try_new_str(invalid_str).expect_err("pass");

    let y = T::new_unchecked(valid_str.to_string());
    assert_eq!(y.as_str(), valid_str);
}

#[test]
fn test_pneu_string_trait_lowercase() {
    test_pneu_string_trait_case::<Lowercase>("abcxyz", "abcPqr");
    test_pneu_str_trait_case::<LowercaseStr<'_>>("abcxyz", "abcPqr");
}

#[test]
fn test_pneu_string_trait_value_string_i32() {
    test_pneu_string_trait_case::<ValueString<i32>>("123", "345.6");
    test_pneu_str_trait_case::<ValueStr<'_, i32>>("123", "345.6");
}

#[test]
fn test_pneu_str_trait_value_string_f32() {
    test_pneu_str_trait_case::<FreeStandingStr<'_>>("blah", "");
}

use cef::enums::{PostDataElementType, ReferrerPolicy, ResourceType, UnrecognizedVariant};
use cef::flags::URLRequestFlags;
use cef::multimap::HeaderMap;
use cef::postdata::{PostData, PostDataElement, PostDataElementTable, PostDataTable};
use cef::refcounted::{RefCount, RefCountedPtr};
use cef::request::{Request, RequestTable};

const ALL_FLAGS: [URLRequestFlags; 8] = [
    URLRequestFlags::SkipCache,
    URLRequestFlags::OnlyFromCache,
    URLRequestFlags::DisableCache,
    URLRequestFlags::AllowStoredCredentials,
    URLRequestFlags::ReportUploadProgress,
    URLRequestFlags::NoDownloadData,
    URLRequestFlags::NoRetryOn5xx,
    URLRequestFlags::StopOnRedirect,
];

#[test]
fn bitfield_values() {
    assert_eq!(URLRequestFlags::to_bitfield(&[]), 0);
    assert_eq!(URLRequestFlags::to_bitfield(&[URLRequestFlags::SkipCache]), 1);
    assert_eq!(
        URLRequestFlags::to_bitfield(&[URLRequestFlags::SkipCache, URLRequestFlags::StopOnRedirect]),
        129
    );
    assert_eq!(
        URLRequestFlags::to_bitfield(&[URLRequestFlags::DisableCache, URLRequestFlags::DisableCache]),
        4
    );
    assert_eq!(URLRequestFlags::from_bitfield(0), vec![]);
    assert_eq!(URLRequestFlags::from_bitfield(-1), ALL_FLAGS.to_vec());
    assert_eq!(
        URLRequestFlags::from_bitfield(0x100 | 0x8),
        vec![URLRequestFlags::AllowStoredCredentials]
    );
}

#[test]
fn bitfield_round_trip_all_subsets() {
    for mask in 0u32..256 {
        let subset: Vec<URLRequestFlags> =
            (0..8).filter(|i| mask & (1 << i) != 0).map(|i| ALL_FLAGS[i]).collect();
        let mut reversed = subset.clone();
        reversed.reverse();
        let decoded = URLRequestFlags::from_bitfield(URLRequestFlags::to_bitfield(&reversed));
        assert_eq!(decoded, subset);
    }
}

#[test]
fn header_map_round_trip() {
    let mut map = HeaderMap::new();
    map.insert("X-A".to_string(), "1".to_string());
    map.insert("X-B".to_string(), "3".to_string());
    map.insert("X-A".to_string(), "2".to_string());
    assert_eq!(map.len(), 2);
    let (names, values) = map.to_pairs();
    assert_eq!(names, vec!["X-A", "X-A", "X-B"]);
    assert_eq!(values, vec!["1", "2", "3"]);
    let back = HeaderMap::from_pairs(&names, &values);
    assert_eq!(back.len(), 2);
    assert_eq!(back.get(&"X-A".to_string()).unwrap(), &vec!["1".to_string(), "2".to_string()]);
    assert_eq!(back.get(&"X-B".to_string()).unwrap(), &vec!["3".to_string()]);
    assert!(back.get(&"x-a".to_string()).is_none());
    assert_eq!(back.to_pairs(), (names, values));
}

#[test]
fn header_map_from_uneven_lists() {
    let names = vec!["K".to_string(), "K".to_string(), "L".to_string()];
    let values = vec!["v1".to_string(), "v2".to_string()];
    let map = HeaderMap::from_pairs(&names, &values);
    assert_eq!(map.len(), 1);
    assert_eq!(map.get(&"K".to_string()).unwrap(), &vec!["v1".to_string(), "v2".to_string()]);
}

#[test]
fn clone_then_drop_leaves_one_less() {
    let mut object = RefCount::new(0x1000);
    let mut extra = RefCount::new(0x2000);
    extra.add_ref();
    assert_eq!(extra.get(), 2);
    let handle = RefCountedPtr::from_ptr_unchecked(&object);
    let mut handles = Vec::new();
    for _ in 0..3 {
        handles.push(handle.clone_ref(&mut object));
    }
    assert_eq!(object.get(), 4);
    handles.push(handle);
    let mut freed = Vec::new();
    for h in handles {
        freed.push(h.drop_ref(&mut object));
    }
    assert_eq!(object.get(), 0);
    assert_eq!(freed, vec![false, false, false, true]);
    assert!(object.is_freed());
}

#[test]
fn checked_handle_takes_its_own_reference() {
    let mut object = RefCount::new(7);
    assert!(object.has_one_ref());
    let a = RefCountedPtr::from_ptr(&mut object);
    assert_eq!(object.get(), 2);
    let b = a.clone_ref(&mut object);
    assert!(a.ptr_eq(&b));
    let other = RefCountedPtr::from_ptr_unchecked(&RefCount::new(8));
    assert!(!a.ptr_eq(&other));
    assert_eq!(b.into_raw(), 7);
    assert_eq!(object.get(), 3);
    assert!(!a.drop_ref(&mut object));
    assert!(!object.release());
    assert!(object.release());
}

#[test]
fn enum_conversions_are_checked() {
    assert_eq!(ReferrerPolicy::from_unchecked(0), Ok(ReferrerPolicy::Default));
    assert_eq!(ReferrerPolicy::from_unchecked(7), Ok(ReferrerPolicy::NoReferrer));
    assert_eq!(ReferrerPolicy::from_unchecked(8), Err(UnrecognizedVariant { value: 8 }));
    assert_eq!(ReferrerPolicy::from_unchecked(-1), Err(UnrecognizedVariant { value: -1 }));
    assert_eq!(ResourceType::from_unchecked(13), Ok(ResourceType::XHR));
    assert_eq!(ResourceType::from_unchecked(17), Ok(ResourceType::PluginResource));
    assert_eq!(ResourceType::from_unchecked(18), Err(UnrecognizedVariant { value: 18 }));
    assert_eq!(PostDataElementType::from_unchecked(2), Ok(PostDataElementType::File));
    assert_eq!(PostDataElementType::from_unchecked(3), Err(UnrecognizedVariant { value: 3 }));
    assert_eq!(ReferrerPolicy::Origin.to_raw(), 4);
    assert_eq!(PostDataElementType::Bytes.to_raw(), 1);
}

#[test]
fn null_table_defaults() {
    let request = Request::with_table(RequestTable::null());
    assert!(request.is_read_only());
    assert_eq!(request.get_method(), "GET");
    assert_eq!(request.get_flags(), vec![]);
    assert_eq!(request.get_identifier(), 0);
    assert_eq!(request.get_url(), "");
    assert_eq!(request.get_referrer_url(), "");
    assert_eq!(request.get_referrer_policy(), Ok(ReferrerPolicy::Default));
    assert!(request.get_post_data().is_none());
    assert_eq!(request.get_header_map().len(), 0);
    assert!(request.get_header_by_name("X").is_none());
    assert_eq!(request.get_first_party_for_cookies(), "");
    assert_eq!(request.get_resource_type(), Ok(ResourceType::SubResource));
    assert_eq!(request.get_transition_type(), 0);
}

#[test]
fn null_table_setters_change_nothing() {
    let mut request = Request::with_table(RequestTable { get_url: true, get_flags: true, ..RequestTable::null() });
    request.set_url("http://example.com/");
    request.set_flags(&[URLRequestFlags::SkipCache]);
    assert_eq!(request.get_url(), "");
    assert_eq!(request.get_flags(), vec![]);
}

#[test]
fn request_getters_and_setters() {
    let mut request = Request::new();
    assert!(!request.is_read_only());
    assert_eq!(request.get_method(), "GET");
    request.set_url("http://example.com/a");
    request.set_method("POST");
    request.set_referrer(Some("https://ref.example/"), ReferrerPolicy::Origin);
    request.set_referrer(None, ReferrerPolicy::NoReferrer);
    request.set_flags(&[URLRequestFlags::NoDownloadData, URLRequestFlags::SkipCache]);
    request.set_first_party_for_cookies("https://first.example/");
    assert_eq!(request.get_url(), "http://example.com/a");
    assert_eq!(request.get_method(), "POST");
    assert_eq!(request.get_referrer_url(), "https://ref.example/");
    assert_eq!(request.get_referrer_policy(), Ok(ReferrerPolicy::Origin));
    assert_eq!(
        request.get_flags(),
        vec![URLRequestFlags::SkipCache, URLRequestFlags::NoDownloadData]
    );
    assert_eq!(request.get_first_party_for_cookies(), "https://first.example/");
    request.assign(99, 0, 3);
    assert_eq!(request.get_identifier(), 99);
    assert_eq!(request.get_resource_type(), Ok(ResourceType::MainFrame));
    assert_eq!(request.get_transition_type(), 3);
    request.assign(99, 40, 3);
    assert_eq!(request.get_resource_type(), Err(UnrecognizedVariant { value: 40 }));
}

#[test]
fn read_only_request_ignores_mutation() {
    let mut request = Request::new();
    request.set_url("http://a/");
    request.mark_read_only();
    assert!(request.is_read_only());
    request.set_url("http://b/");
    request.set_header_by_name("X", "1", true);
    request.set_post_data(PostData::new());
    assert_eq!(request.get_url(), "http://a/");
    assert!(request.get_header_by_name("X").is_none());
    assert!(request.get_post_data().is_none());
}

#[test]
fn request_headers() {
    let mut request = Request::new();
    request.set_header_by_name("X-A", "1", false);
    request.set_header_by_name("X-B", "3", false);
    request.set_header_by_name("X-A", "ignored", false);
    assert_eq!(request.get_header_by_name("X-A"), Some("1".to_string()));
    request.set_header_by_name("X-A", "2", true);
    assert_eq!(request.get_header_by_name("X-A"), Some("2".to_string()));
    let map = request.get_header_map();
    assert_eq!(map.to_pairs(), (vec!["X-B".to_string(), "X-A".to_string()], vec!["3".to_string(), "2".to_string()]));
}

#[test]
fn request_set_all_at_once() {
    let mut headers = HeaderMap::new();
    headers.insert("X-A".to_string(), "1".to_string());
    headers.insert("X-A".to_string(), "2".to_string());
    headers.insert("X-B".to_string(), "3".to_string());
    let mut post_data = PostData::new();
    let mut element = PostDataElement::new(1);
    element.set_to_bytes(b"body");
    assert!(post_data.add_element(&element));
    let mut request = Request::new();
    request.set("http://example.com/", "POST", post_data, &headers);
    assert_eq!(request.get_url(), "http://example.com/");
    assert_eq!(request.get_method(), "POST");
    assert_eq!(request.get_post_data().unwrap().get_element_count(), 1);
    let map = request.get_header_map();
    assert_eq!(map.get(&"X-A".to_string()).unwrap(), &vec!["1".to_string(), "2".to_string()]);
    assert_eq!(map.get(&"X-B".to_string()).unwrap(), &vec!["3".to_string()]);
}

#[test]
fn post_data_elements() {
    let mut post_data = PostData::new();
    assert!(!post_data.is_read_only());
    assert!(!post_data.has_excluded_elements());
    let mut a = PostDataElement::new(1);
    a.set_to_file("/tmp/upload.bin");
    let mut b = PostDataElement::new(2);
    b.set_to_bytes(&[1, 2, 3]);
    assert!(post_data.add_element(&a));
    assert!(post_data.add_element(&b));
    assert_eq!(post_data.get_element_count(), 2);
    let elements = post_data.get_elements();
    assert_eq!(elements.len(), 2);
    assert_eq!(elements[0].get_type(), Ok(PostDataElementType::File));
    assert_eq!(elements[0].get_file(), "/tmp/upload.bin");
    assert_eq!(elements[1].get_type(), Ok(PostDataElementType::Bytes));
    assert_eq!(elements[1].get_bytes(), vec![1, 2, 3]);
    assert_eq!(elements[1].get_bytes_count(), 3);
    assert!(post_data.remove_element(&a));
    assert!(!post_data.remove_element(&a));
    assert_eq!(post_data.get_element_count(), 1);
    assert!(post_data.get_elements()[0].ptr_eq(&b));
    post_data.remove_elements();
    assert_eq!(post_data.get_element_count(), 0);
    assert!(post_data.get_elements().is_empty());
    post_data.mark_excluded_elements();
    assert!(post_data.has_excluded_elements());
}

#[test]
fn post_data_read_only_and_null_table() {
    let mut post_data = PostData::new();
    post_data.mark_read_only();
    assert!(!post_data.add_element(&PostDataElement::new(5)));
    assert_eq!(post_data.get_element_count(), 0);
    let empty = PostData::with_table(PostDataTable::null());
    assert!(empty.is_read_only());
    assert!(!empty.has_excluded_elements());
    assert_eq!(empty.get_element_count(), 0);
}

#[test]
fn post_data_element_defaults() {
    let mut element = PostDataElement::with_table(PostDataElementTable::null(), 3);
    element.set_to_bytes(&[9]);
    assert!(element.is_read_only());
    assert_eq!(element.get_type(), Ok(PostDataElementType::Empty));
    assert_eq!(element.get_file(), "");
    assert_eq!(element.get_bytes_count(), 0);
    assert_eq!(element.get_bytes(), Vec::<u8>::new());
    let mut writable = PostDataElement::new(4);
    writable.set_to_bytes(&[9]);
    writable.set_to_empty();
    assert_eq!(writable.get_type(), Ok(PostDataElementType::Empty));
    assert_eq!(writable.get_bytes_count(), 0);
    writable.mark_read_only();
    writable.set_to_file("f");
    assert_eq!(writable.get_file(), "");
    let copy = writable.duplicate();
    assert!(copy.ptr_eq(&writable));
}

#[test]
fn referer_only_through_set_referrer() {
    let mut request = Request::new();
    request.set_header_by_name("Referer", "http://x/", true);
    request.set_header_by_name("REFERER", "http://y/", false);
    assert!(request.get_header_by_name("Referer").is_none());
    assert_eq!(request.get_header_map().len(), 0);
    let mut headers = HeaderMap::new();
    headers.insert("referer".to_string(), "http://z/".to_string());
    headers.insert("X-Referer".to_string(), "kept".to_string());
    request.set("http://a/", "GET", PostData::new(), &headers);
    let map = request.get_header_map();
    assert_eq!(map.len(), 1);
    assert_eq!(map.get(&"X-Referer".to_string()).unwrap(), &vec!["kept".to_string()]);
    request.set_referrer(Some("http://r/"), ReferrerPolicy::NeverClearReferrer);
    assert_eq!(request.get_referrer_url(), "http://r/");
}

#[test]
fn post_data_implies_post_method() {
    let mut request = Request::new();
    request.set_post_data(PostData::new());
    assert_eq!(request.get_method(), "POST");
    assert!(request.get_post_data().is_some());
    let mut put = Request::new();
    put.set_method("PUT");
    put.set_post_data(PostData::new());
    assert_eq!(put.get_method(), "PUT");
}

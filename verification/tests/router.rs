use app_extract_info::error::Error;
use app_extract_info::manifest::{APK_EXT, IPA_EXT};
use app_extract_info::{get_loaders, Loader};

#[test]
fn the_two_extensions_are_fixed() {
    assert_eq!(IPA_EXT, "ipa");
    assert_eq!(APK_EXT, "apk");
}

#[test]
fn ipa_extension_selects_the_property_list_loader() {
    assert_eq!(get_loaders("test.ipa"), Ok(Loader::Ipa));
    assert_eq!(get_loaders("/home/user/apps/My App.ipa"), Ok(Loader::Ipa));
    assert_eq!(get_loaders("archive.tar.ipa"), Ok(Loader::Ipa));
}

#[test]
fn apk_extension_selects_the_binary_xml_loader() {
    assert_eq!(get_loaders("test.apk"), Ok(Loader::Apk));
    assert_eq!(get_loaders("./build/outputs/app-release.apk"), Ok(Loader::Apk));
    assert_eq!(get_loaders("dir.ipa/app.apk"), Ok(Loader::Apk));
}

#[test]
fn another_extension_is_an_invalid_file() {
    assert_eq!(get_loaders("test.zip"), Err(Error::InvalidFile));
    assert_eq!(get_loaders("test.apk.zip"), Err(Error::InvalidFile));
    assert_eq!(get_loaders("test.apks"), Err(Error::InvalidFile));
    assert_eq!(get_loaders("test.xapk"), Err(Error::InvalidFile));
    assert_eq!(get_loaders("test.ipa "), Err(Error::InvalidFile));
    assert_eq!(get_loaders("test."), Err(Error::InvalidFile));
}

#[test]
fn the_extension_is_compared_letter_for_letter() {
    assert_eq!(get_loaders("test.IPA"), Err(Error::InvalidFile));
    assert_eq!(get_loaders("test.Apk"), Err(Error::InvalidFile));
}

#[test]
fn a_path_without_extension_is_an_invalid_file() {
    assert_eq!(get_loaders("test"), Err(Error::InvalidFile));
    assert_eq!(get_loaders(""), Err(Error::InvalidFile));
    assert_eq!(get_loaders("ipa"), Err(Error::InvalidFile));
    assert_eq!(get_loaders("dir.apk/file"), Err(Error::InvalidFile));
    assert_eq!(get_loaders("dir/"), Err(Error::InvalidFile));
}

#[test]
fn a_name_that_begins_with_its_only_dot_has_no_extension() {
    assert_eq!(get_loaders(".ipa"), Err(Error::InvalidFile));
    assert_eq!(get_loaders("dir/.apk"), Err(Error::InvalidFile));
    assert_eq!(get_loaders("dir/.hidden.apk"), Ok(Loader::Apk));
}

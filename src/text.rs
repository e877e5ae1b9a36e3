//! Fixed texts of the acquisition tool's output and of this library's own.
use vstd::prelude::*;

verus! {

/// `[debug] `: the tool's debug tag.
pub open spec fn debug_tag() -> Seq<u8> {
    seq![91u8, 100, 101, 98, 117, 103, 93, 32]
}

pub fn debug_tag_bytes() -> (r: Vec<u8>)
    ensures
        r@ == debug_tag(),
{
    let r = vec![91u8, 100, 101, 98, 117, 103, 93, 32];
    assert(r@ =~= debug_tag());
    r
}

/// `WARNING:`: the tool's warning tag.
pub open spec fn warning_tag() -> Seq<u8> {
    seq![87u8, 65, 82, 78, 73, 78, 71, 58]
}

pub fn warning_tag_bytes() -> (r: Vec<u8>)
    ensures
        r@ == warning_tag(),
{
    let r = vec![87u8, 65, 82, 78, 73, 78, 71, 58];
    assert(r@ =~= warning_tag());
    r
}

/// `ERROR:`: the tool's error tag.
pub open spec fn error_tag() -> Seq<u8> {
    seq![69u8, 82, 82, 79, 82, 58]
}

pub fn error_tag_bytes() -> (r: Vec<u8>)
    ensures
        r@ == error_tag(),
{
    let r = vec![69u8, 82, 82, 79, 82, 58];
    assert(r@ =~= error_tag());
    r
}

/// `Video unavailable.`: what the tool says of an item that is gone.
pub open spec fn unavailable_note() -> Seq<u8> {
    seq![86u8, 105, 100, 101, 111, 32, 117, 110, 97, 118, 97, 105, 108, 97, 98, 108, 101, 46]
}

pub fn unavailable_note_bytes() -> (r: Vec<u8>)
    ensures
        r@ == unavailable_note(),
{
    let r = vec![86u8, 105, 100, 101, 111, 32, 117, 110, 97, 118, 97, 105, 108, 97, 98, 108, 101, 46];
    assert(r@ =~= unavailable_note());
    r
}

/// `Unsupported URL:`: what the tool says of a locator it cannot handle.
pub open spec fn unsupported_note() -> Seq<u8> {
    seq![85u8, 110, 115, 117, 112, 112, 111, 114, 116, 101, 100, 32, 85, 82, 76, 58]
}

pub fn unsupported_note_bytes() -> (r: Vec<u8>)
    ensures
        r@ == unsupported_note(),
{
    let r = vec![85u8, 110, 115, 117, 112, 112, 111, 114, 116, 101, 100, 32, 85, 82, 76, 58];
    assert(r@ =~= unsupported_note());
    r
}

/// `[youtube:tab] Playlist `: how the tool begins the line that announces a playlist's size.
pub open spec fn playlist_announcement() -> Seq<u8> {
    seq![91u8, 121, 111, 117, 116, 117, 98, 101, 58, 116, 97, 98, 93, 32, 80, 108, 97, 121, 108, 105, 115, 116, 32]
}

pub fn playlist_announcement_bytes() -> (r: Vec<u8>)
    ensures
        r@ == playlist_announcement(),
{
    let r = vec![91u8, 121, 111, 117, 116, 117, 98, 101, 58, 116, 97, 98, 93, 32, 80, 108, 97, 121, 108, 105, 115, 116, 32];
    assert(r@ =~= playlist_announcement());
    r
}

/// `not pass filter`: what the tool says of an item that the match filter excludes.
pub open spec fn filter_note() -> Seq<u8> {
    seq![110u8, 111, 116, 32, 112, 97, 115, 115, 32, 102, 105, 108, 116, 101, 114]
}

pub fn filter_note_bytes() -> (r: Vec<u8>)
    ensures
        r@ == filter_note(),
{
    let r = vec![110u8, 111, 116, 32, 112, 97, 115, 115, 32, 102, 105, 108, 116, 101, 114];
    assert(r@ =~= filter_note());
    r
}

/// `, skipping..\n`: what ends a shortened filter line.
pub open spec fn skipping_suffix() -> Seq<u8> {
    seq![44u8, 32, 115, 107, 105, 112, 112, 105, 110, 103, 46, 46, 10]
}

pub fn skipping_suffix_bytes() -> (r: Vec<u8>)
    ensures
        r@ == skipping_suffix(),
{
    let r = vec![44u8, 32, 115, 107, 105, 112, 112, 105, 110, 103, 46, 46, 10];
    assert(r@ =~= skipping_suffix());
    r
}

/// `.\n`: the ending of a normalised unavailability line.
pub open spec fn period_newline() -> Seq<u8> {
    seq![46u8, 10]
}

pub fn period_newline_bytes() -> (r: Vec<u8>)
    ensures
        r@ == period_newline(),
{
    let r = vec![46u8, 10];
    assert(r@ =~= period_newline());
    r
}

/// `--verbose`: the tool's verbose switch.
pub open spec fn verbose_flag() -> Seq<u8> {
    seq![45u8, 45, 118, 101, 114, 98, 111, 115, 101]
}

pub fn verbose_flag_bytes() -> (r: Vec<u8>)
    ensures
        r@ == verbose_flag(),
{
    let r = vec![45u8, 45, 118, 101, 114, 98, 111, 115, 101];
    assert(r@ =~= verbose_flag());
    r
}

/// `--quiet`: the tool's quiet switch.
pub open spec fn quiet_flag() -> Seq<u8> {
    seq![45u8, 45, 113, 117, 105, 101, 116]
}

pub fn quiet_flag_bytes() -> (r: Vec<u8>)
    ensures
        r@ == quiet_flag(),
{
    let r = vec![45u8, 45, 113, 117, 105, 101, 116];
    assert(r@ =~= quiet_flag());
    r
}

/// `--windows-filenames`: asks for file names that every system accepts.
pub open spec fn windows_names_flag() -> Seq<u8> {
    seq![45u8, 45, 119, 105, 110, 100, 111, 119, 115, 45, 102, 105, 108, 101, 110, 97, 109, 101, 115]
}

pub fn windows_names_flag_bytes() -> (r: Vec<u8>)
    ensures
        r@ == windows_names_flag(),
{
    let r = vec![45u8, 45, 119, 105, 110, 100, 111, 119, 115, 45, 102, 105, 108, 101, 110, 97, 109, 101, 115];
    assert(r@ =~= windows_names_flag());
    r
}

/// `--simulate`: asks the tool to fetch nothing.
pub open spec fn simulate_flag() -> Seq<u8> {
    seq![45u8, 45, 115, 105, 109, 117, 108, 97, 116, 101]
}

pub fn simulate_flag_bytes() -> (r: Vec<u8>)
    ensures
        r@ == simulate_flag(),
{
    let r = vec![45u8, 45, 115, 105, 109, 117, 108, 97, 116, 101];
    assert(r@ =~= simulate_flag());
    r
}

/// `--flat-playlist`: asks for the playlist's items without resolving them.
pub open spec fn flat_flag() -> Seq<u8> {
    seq![45u8, 45, 102, 108, 97, 116, 45, 112, 108, 97, 121, 108, 105, 115, 116]
}

pub fn flat_flag_bytes() -> (r: Vec<u8>)
    ensures
        r@ == flat_flag(),
{
    let r = vec![45u8, 45, 102, 108, 97, 116, 45, 112, 108, 97, 121, 108, 105, 115, 116];
    assert(r@ =~= flat_flag());
    r
}

/// `--lazy-playlist`: asks the tool to page through the playlist as it goes.
pub open spec fn lazy_flag() -> Seq<u8> {
    seq![45u8, 45, 108, 97, 122, 121, 45, 112, 108, 97, 121, 108, 105, 115, 116]
}

pub fn lazy_flag_bytes() -> (r: Vec<u8>)
    ensures
        r@ == lazy_flag(),
{
    let r = vec![45u8, 45, 108, 97, 122, 121, 45, 112, 108, 97, 121, 108, 105, 115, 116];
    assert(r@ =~= lazy_flag());
    r
}

/// `--print`: asks the tool to print a template per item.
pub open spec fn print_flag() -> Seq<u8> {
    seq![45u8, 45, 112, 114, 105, 110, 116]
}

pub fn print_flag_bytes() -> (r: Vec<u8>)
    ensures
        r@ == print_flag(),
{
    let r = vec![45u8, 45, 112, 114, 105, 110, 116];
    assert(r@ =~= print_flag());
    r
}

/// `title=%(title)s<SEP>id=%(id)s<SEP>url=%(webpage_url)s`: one snapshot line per item.
pub open spec fn listing_template() -> Seq<u8> {
    seq![116u8, 105, 116, 108, 101, 61, 37, 40, 116, 105, 116, 108, 101, 41, 115, 6, 105, 100, 61, 37, 40, 105, 100, 41, 115, 6, 117, 114, 108, 61, 37, 40, 119, 101, 98, 112, 97, 103, 101, 95, 117, 114, 108, 41, 115]
}

pub fn listing_template_bytes() -> (r: Vec<u8>)
    ensures
        r@ == listing_template(),
{
    let r = vec![116u8, 105, 116, 108, 101, 61, 37, 40, 116, 105, 116, 108, 101, 41, 115, 6, 105, 100, 61, 37, 40, 105, 100, 41, 115, 6, 117, 114, 108, 61, 37, 40, 119, 101, 98, 112, 97, 103, 101, 95, 117, 114, 108, 41, 115];
    assert(r@ =~= listing_template());
    r
}

/// `%(playlist)s`: the playlist's title.
pub open spec fn playlist_field() -> Seq<u8> {
    seq![37u8, 40, 112, 108, 97, 121, 108, 105, 115, 116, 41, 115]
}

pub fn playlist_field_bytes() -> (r: Vec<u8>)
    ensures
        r@ == playlist_field(),
{
    let r = vec![37u8, 40, 112, 108, 97, 121, 108, 105, 115, 116, 41, 115];
    assert(r@ =~= playlist_field());
    r
}

/// `--playlist-items=1`: restricts the tool to the first item.
pub open spec fn first_item_flag() -> Seq<u8> {
    seq![45u8, 45, 112, 108, 97, 121, 108, 105, 115, 116, 45, 105, 116, 101, 109, 115, 61, 49]
}

pub fn first_item_flag_bytes() -> (r: Vec<u8>)
    ensures
        r@ == first_item_flag(),
{
    let r = vec![45u8, 45, 112, 108, 97, 121, 108, 105, 115, 116, 45, 105, 116, 101, 109, 115, 61, 49];
    assert(r@ =~= first_item_flag());
    r
}

/// `--extract-audio`: keeps the audio only.
pub open spec fn extract_audio_flag() -> Seq<u8> {
    seq![45u8, 45, 101, 120, 116, 114, 97, 99, 116, 45, 97, 117, 100, 105, 111]
}

pub fn extract_audio_flag_bytes() -> (r: Vec<u8>)
    ensures
        r@ == extract_audio_flag(),
{
    let r = vec![45u8, 45, 101, 120, 116, 114, 97, 99, 116, 45, 97, 117, 100, 105, 111];
    assert(r@ =~= extract_audio_flag());
    r
}

/// `--audio-format=mp3`: the audio format kept.
pub open spec fn audio_format_flag() -> Seq<u8> {
    seq![45u8, 45, 97, 117, 100, 105, 111, 45, 102, 111, 114, 109, 97, 116, 61, 109, 112, 51]
}

pub fn audio_format_flag_bytes() -> (r: Vec<u8>)
    ensures
        r@ == audio_format_flag(),
{
    let r = vec![45u8, 45, 97, 117, 100, 105, 111, 45, 102, 111, 114, 109, 97, 116, 61, 109, 112, 51];
    assert(r@ =~= audio_format_flag());
    r
}

/// `--embed-thumbnail`: embeds the thumbnail.
pub open spec fn thumbnail_flag() -> Seq<u8> {
    seq![45u8, 45, 101, 109, 98, 101, 100, 45, 116, 104, 117, 109, 98, 110, 97, 105, 108]
}

pub fn thumbnail_flag_bytes() -> (r: Vec<u8>)
    ensures
        r@ == thumbnail_flag(),
{
    let r = vec![45u8, 45, 101, 109, 98, 101, 100, 45, 116, 104, 117, 109, 98, 110, 97, 105, 108];
    assert(r@ =~= thumbnail_flag());
    r
}

/// `--add-metadata`: embeds the metadata.
pub open spec fn metadata_flag() -> Seq<u8> {
    seq![45u8, 45, 97, 100, 100, 45, 109, 101, 116, 97, 100, 97, 116, 97]
}

pub fn metadata_flag_bytes() -> (r: Vec<u8>)
    ensures
        r@ == metadata_flag(),
{
    let r = vec![45u8, 45, 97, 100, 100, 45, 109, 101, 116, 97, 100, 97, 116, 97];
    assert(r@ =~= metadata_flag());
    r
}

/// `--ffmpeg-location`: names the transcoder.
pub open spec fn transcoder_flag() -> Seq<u8> {
    seq![45u8, 45, 102, 102, 109, 112, 101, 103, 45, 108, 111, 99, 97, 116, 105, 111, 110]
}

pub fn transcoder_flag_bytes() -> (r: Vec<u8>)
    ensures
        r@ == transcoder_flag(),
{
    let r = vec![45u8, 45, 102, 102, 109, 112, 101, 103, 45, 108, 111, 99, 97, 116, 105, 111, 110];
    assert(r@ =~= transcoder_flag());
    r
}

/// `--match-filter`: sets the match filter.
pub open spec fn match_filter_flag() -> Seq<u8> {
    seq![45u8, 45, 109, 97, 116, 99, 104, 45, 102, 105, 108, 116, 101, 114]
}

pub fn match_filter_flag_bytes() -> (r: Vec<u8>)
    ensures
        r@ == match_filter_flag(),
{
    let r = vec![45u8, 45, 109, 97, 116, 99, 104, 45, 102, 105, 108, 116, 101, 114];
    assert(r@ =~= match_filter_flag());
    r
}

/// `NA`: what the tool prints for a missing field.
pub open spec fn not_available() -> Seq<u8> {
    seq![78u8, 65]
}

pub fn not_available_bytes() -> (r: Vec<u8>)
    ensures
        r@ == not_available(),
{
    let r = vec![78u8, 65];
    assert(r@ =~= not_available());
    r
}

/// `id !~= `: the start of the filter that excludes items already present.
pub open spec fn reject_filter_head() -> Seq<u8> {
    seq![105u8, 100, 32, 33, 126, 61, 32]
}

pub fn reject_filter_head_bytes() -> (r: Vec<u8>)
    ensures
        r@ == reject_filter_head(),
{
    let r = vec![105u8, 100, 32, 33, 126, 61, 32];
    assert(r@ =~= reject_filter_head());
    r
}

/// `.mp3`: the extension of fetched files.
pub open spec fn audio_ext() -> Seq<u8> {
    seq![46u8, 109, 112, 51]
}

pub fn audio_ext_bytes() -> (r: Vec<u8>)
    ensures
        r@ == audio_ext(),
{
    let r = vec![46u8, 109, 112, 51];
    assert(r@ =~= audio_ext());
    r
}

/// `Android Debug Bridge version `: how adb introduces its version.
pub open spec fn adb_version_banner() -> Seq<u8> {
    seq![65u8, 110, 100, 114, 111, 105, 100, 32, 68, 101, 98, 117, 103, 32, 66, 114, 105, 100, 103, 101, 32, 118, 101, 114, 115, 105, 111, 110, 32]
}

pub fn adb_version_banner_bytes() -> (r: Vec<u8>)
    ensures
        r@ == adb_version_banner(),
{
    let r = vec![65u8, 110, 100, 114, 111, 105, 100, 32, 68, 101, 98, 117, 103, 32, 66, 114, 105, 100, 103, 101, 32, 118, 101, 114, 115, 105, 111, 110, 32];
    assert(r@ =~= adb_version_banner());
    r
}

/// `List of devices attached`: the first line of adb's device list.
pub open spec fn device_list_header() -> Seq<u8> {
    seq![76u8, 105, 115, 116, 32, 111, 102, 32, 100, 101, 118, 105, 99, 101, 115, 32, 97, 116, 116, 97, 99, 104, 101, 100]
}

pub fn device_list_header_bytes() -> (r: Vec<u8>)
    ensures
        r@ == device_list_header(),
{
    let r = vec![76u8, 105, 115, 116, 32, 111, 102, 32, 100, 101, 118, 105, 99, 101, 115, 32, 97, 116, 116, 97, 99, 104, 101, 100];
    assert(r@ =~= device_list_header());
    r
}

/// `model:`: the key of a device's model.
pub open spec fn model_key() -> Seq<u8> {
    seq![109u8, 111, 100, 101, 108, 58]
}

pub fn model_key_bytes() -> (r: Vec<u8>)
    ensures
        r@ == model_key(),
{
    let r = vec![109u8, 111, 100, 101, 108, 58];
    assert(r@ =~= model_key());
    r
}

/// `transport_id:`: the key of a device's transport id.
pub open spec fn transport_key() -> Seq<u8> {
    seq![116u8, 114, 97, 110, 115, 112, 111, 114, 116, 95, 105, 100, 58]
}

pub fn transport_key_bytes() -> (r: Vec<u8>)
    ensures
        r@ == transport_key(),
{
    let r = vec![116u8, 114, 97, 110, 115, 112, 111, 114, 116, 95, 105, 100, 58];
    assert(r@ =~= transport_key());
    r
}

/// `device`: adb's word for a device ready for commands.
pub open spec fn state_device() -> Seq<u8> {
    seq![100u8, 101, 118, 105, 99, 101]
}

pub fn state_device_bytes() -> (r: Vec<u8>)
    ensures
        r@ == state_device(),
{
    let r = vec![100u8, 101, 118, 105, 99, 101];
    assert(r@ =~= state_device());
    r
}

/// `offline`: adb's word for an offline device.
pub open spec fn state_offline() -> Seq<u8> {
    seq![111u8, 102, 102, 108, 105, 110, 101]
}

pub fn state_offline_bytes() -> (r: Vec<u8>)
    ensures
        r@ == state_offline(),
{
    let r = vec![111u8, 102, 102, 108, 105, 110, 101];
    assert(r@ =~= state_offline());
    r
}

/// `bootloader`: adb's word for a device in its bootloader.
pub open spec fn state_bootloader() -> Seq<u8> {
    seq![98u8, 111, 111, 116, 108, 111, 97, 100, 101, 114]
}

pub fn state_bootloader_bytes() -> (r: Vec<u8>)
    ensures
        r@ == state_bootloader(),
{
    let r = vec![98u8, 111, 111, 116, 108, 111, 97, 100, 101, 114];
    assert(r@ =~= state_bootloader());
    r
}

/// `unauthorized`: adb's word for a device that refused access.
pub open spec fn state_unauthorized() -> Seq<u8> {
    seq![117u8, 110, 97, 117, 116, 104, 111, 114, 105, 122, 101, 100]
}

pub fn state_unauthorized_bytes() -> (r: Vec<u8>)
    ensures
        r@ == state_unauthorized(),
{
    let r = vec![117u8, 110, 97, 117, 116, 104, 111, 114, 105, 122, 101, 100];
    assert(r@ =~= state_unauthorized());
    r
}

/// `No such file or directory`: what the device's shell says of a missing directory.
pub open spec fn no_such_dir() -> Seq<u8> {
    seq![78u8, 111, 32, 115, 117, 99, 104, 32, 102, 105, 108, 101, 32, 111, 114, 32, 100, 105, 114, 101, 99, 116, 111, 114, 121]
}

pub fn no_such_dir_bytes() -> (r: Vec<u8>)
    ensures
        r@ == no_such_dir(),
{
    let r = vec![78u8, 111, 32, 115, 117, 99, 104, 32, 102, 105, 108, 101, 32, 111, 114, 32, 100, 105, 114, 101, 99, 116, 111, 114, 121];
    assert(r@ =~= no_such_dir());
    r
}

} // verus!

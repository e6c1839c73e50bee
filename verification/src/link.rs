//! The links by which clients set themselves up: one for each protocol, one to a line.

use crate::base64_text::{
    base64_bytes, base64_len, base64_url_safe, encode_url_safe, law_base64_reads_back,
    lemma_alphabets, lemma_base64_chars,
};
use crate::config::Config;
use crate::json_text::{
    fields_view, json_object, lemma_members_len, less_at, members_of, names_of, object_text,
    JsonValue, JsonValueView,
};
use crate::text::{after_prefix, joined, lacks, lemma_joined, pieces};
use crate::utf8_text::lemma_utf8_len;
use crate::uuid_text::{format_uuid, lemma_uuid_text, uuid_text};
use vstd::prelude::*;
use vstd::string::*;
use vstd::utf8::{decode_utf8, encode_utf8, encode_utf8_decode_utf8};

verus! {

/// What the link for vmess says, by name.
pub open spec fn vmess_fields(host: Seq<char>, uuid: Seq<char>) -> Seq<
    (Seq<char>, JsonValueView),
> {
    seq![
        ("add"@, JsonValueView::Text(host)),
        ("aid"@, JsonValueView::Text("0"@)),
        ("alpn"@, JsonValueView::Text(Seq::empty())),
        ("host"@, JsonValueView::Text(host)),
        ("id"@, JsonValueView::Text(uuid)),
        ("net"@, JsonValueView::Text("ws"@)),
        ("path"@, JsonValueView::Text("/vmess"@)),
        ("port"@, JsonValueView::Text("443"@)),
        ("ps"@, JsonValueView::Text("siren vmess"@)),
        ("scy"@, JsonValueView::Text("zero"@)),
        ("sni"@, JsonValueView::Text(host)),
        ("tls"@, JsonValueView::Text("tls"@)),
        ("type"@, JsonValueView::Text("none"@)),
        ("v"@, JsonValueView::Text("2"@)),
    ]
}

/// The JSON text that the link for vmess holds.
pub open spec fn vmess_json(host: Seq<char>, uuid: Seq<char>) -> Seq<char> {
    json_object(members_of(vmess_fields(host, uuid)))
}

/// The link for vmess.
pub open spec fn vmess_link(host: Seq<char>, uuid: Seq<char>) -> Seq<char> {
    "vmess://"@ + base64_url_safe(encode_utf8(vmess_json(host, uuid)))
}

/// A link that names the service, and behind it `path` and `label`.
pub open spec fn plain_link(
    scheme: Seq<char>,
    host: Seq<char>,
    uuid: Seq<char>,
    path: Seq<char>,
    label: Seq<char>,
) -> Seq<char> {
    scheme + uuid + "@"@ + host + ":443?encryption=none&type=ws&host="@ + host + path
        + "&security=tls&sni="@ + host + label
}

/// The link for vless.
pub open spec fn vless_link(host: Seq<char>, uuid: Seq<char>) -> Seq<char> {
    plain_link("vless://"@, host, uuid, "&path=%2Fvless"@, "#siren vless"@)
}

/// The link for trojan.
pub open spec fn trojan_link(host: Seq<char>, uuid: Seq<char>) -> Seq<char> {
    plain_link("trojan://"@, host, uuid, "&path=%2Ftrojan"@, "#siren trojan"@)
}

/// All links.
pub open spec fn link_text(host: Seq<char>, uuid: Seq<char>) -> Seq<char> {
    vmess_link(host, uuid) + "\n"@ + vless_link(host, uuid) + "\n"@ + trojan_link(host, uuid)
}

/// The link for vmess can be allocated.
pub open spec fn link_fits(host: Seq<char>, uuid: Seq<char>) -> bool {
    base64_len(encode_utf8(vmess_json(host, uuid)).len()) <= isize::MAX
}

/// Writes the JSON text that the link for vmess holds.
fn vmess_config(host: &str, uuid: &str) -> (t: String)
    ensures
        t@ == vmess_json(host@, uuid@),
{
    let fields: Vec<(&'static str, JsonValue)> = vec![
        ("add", JsonValue::Text(host.to_owned())),
        ("aid", JsonValue::Text("0".to_owned())),
        ("alpn", JsonValue::Text(String::new())),
        ("host", JsonValue::Text(host.to_owned())),
        ("id", JsonValue::Text(uuid.to_owned())),
        ("net", JsonValue::Text("ws".to_owned())),
        ("path", JsonValue::Text("/vmess".to_owned())),
        ("port", JsonValue::Text("443".to_owned())),
        ("ps", JsonValue::Text("siren vmess".to_owned())),
        ("scy", JsonValue::Text("zero".to_owned())),
        ("sni", JsonValue::Text(host.to_owned())),
        ("tls", JsonValue::Text("tls".to_owned())),
        ("type", JsonValue::Text("none".to_owned())),
        ("v", JsonValue::Text("2".to_owned())),
    ];
    proof {
        assert(fields_view(fields@) == vmess_fields(host@, uuid@));
        let names = names_of(fields_view(fields@));
        reveal_strlit("add");
        reveal_strlit("aid");
        reveal_strlit("alpn");
        reveal_strlit("host");
        reveal_strlit("id");
        reveal_strlit("net");
        reveal_strlit("path");
        reveal_strlit("port");
        reveal_strlit("ps");
        reveal_strlit("scy");
        reveal_strlit("sni");
        reveal_strlit("tls");
        reveal_strlit("type");
        reveal_strlit("v");
        assert(less_at(names[0], names[1], 1));
        assert(less_at(names[1], names[2], 1));
        assert(less_at(names[2], names[3], 0));
        assert(less_at(names[3], names[4], 0));
        assert(less_at(names[4], names[5], 0));
        assert(less_at(names[5], names[6], 0));
        assert(less_at(names[6], names[7], 1));
        assert(less_at(names[7], names[8], 1));
        assert(less_at(names[8], names[9], 0));
        assert(less_at(names[9], names[10], 1));
        assert(less_at(names[10], names[11], 0));
        assert(less_at(names[11], names[12], 1));
        assert(less_at(names[12], names[13], 0));
    }
    object_text(fields)
}

/// Writes a link that names the service.
fn write_plain_link(scheme: &str, host: &str, uuid: &str, path: &str, label: &str) -> (t: String)
    ensures
        t@ == plain_link(scheme@, host@, uuid@, path@, label@),
{
    let mut t: String = scheme.to_owned();
    t.append(uuid);
    t.append("@");
    t.append(host);
    t.append(":443?encryption=none&type=ws&host=");
    t.append(host);
    t.append(path);
    t.append("&security=tls&sni=");
    t.append(host);
    t.append(label);
    t
}

/// Whether the base64 text for `n` octets can be allocated.
fn text_fits(n: usize) -> (b: bool)
    ensures
        b == (base64_len(n as nat) <= isize::MAX),
{
    let groups: usize = n / 3 + if n % 3 > 0 {
        1
    } else {
        0
    };
    assert(groups == (n + 2) / 3);
    groups <= isize::MAX as usize / 4
}

/// The links to the service that `config` sets up; none, where they cannot be allocated.
pub fn link_if_it_fits(config: &Config) -> (t: Option<String>)
    ensures
        match t {
            Some(t) => link_fits(config.host@, uuid_text(config.uuid)) && t@ == link_text(
                config.host@,
                uuid_text(config.uuid),
            ),
            None => !link_fits(config.host@, uuid_text(config.uuid)),
        },
{
    let uuid: String = format_uuid(config.uuid);
    let json: String = vmess_config(config.host.as_str(), uuid.as_str());
    if text_fits(json.as_str().as_bytes().len()) {
        Some(link(config))
    } else {
        None
    }
}

/// The links to the service that `config` sets up.
pub fn link(config: &Config) -> (t: String)
    requires
        link_fits(config.host@, uuid_text(config.uuid)),
    ensures
        t@ == link_text(config.host@, uuid_text(config.uuid)),
{
    let host: &str = config.host.as_str();
    let uuid: String = format_uuid(config.uuid);
    let json: String = vmess_config(host, uuid.as_str());
    let mut t: String = "vmess://".to_owned();
    t.append(encode_url_safe(json.as_str().as_bytes()).as_str());
    t.append("\n");
    t.append(
        write_plain_link("vless://", host, uuid.as_str(), "&path=%2Fvless", "#siren vless").as_str(),
    );
    t.append("\n");
    t.append(
        write_plain_link(
            "trojan://",
            host,
            uuid.as_str(),
            "&path=%2Ftrojan",
            "#siren trojan",
        ).as_str(),
    );
    t
}

/// The links for a host of at most a million characters can be allocated on any machine.
pub proof fn law_links_can_be_written(host: Seq<char>, id: u128)
    requires
        host.len() <= 1_000_000,
    ensures
        link_fits(host, uuid_text(id)),
{
    let uuid = uuid_text(id);
    let fields = vmess_fields(host, uuid);
    let json = vmess_json(host, uuid);
    lemma_uuid_text(id);
    reveal_strlit("add");
    reveal_strlit("aid");
    reveal_strlit("alpn");
    reveal_strlit("host");
    reveal_strlit("id");
    reveal_strlit("net");
    reveal_strlit("path");
    reveal_strlit("port");
    reveal_strlit("ps");
    reveal_strlit("scy");
    reveal_strlit("sni");
    reveal_strlit("tls");
    reveal_strlit("type");
    reveal_strlit("v");
    reveal_strlit("0");
    reveal_strlit("ws");
    reveal_strlit("/vmess");
    reveal_strlit("443");
    reveal_strlit("siren vmess");
    reveal_strlit("zero");
    reveal_strlit("none");
    reveal_strlit("2");
    lemma_members_len(fields, 4, 1_000_000);
    lemma_utf8_len(json);
    assert(json.len() <= 14 * 6_000_030 + 2);
    assert(isize::MAX >= 0x7fff_ffff);
}

/// A link to the service lacks a newline, where the host does.
proof fn lemma_plain_link(
    scheme: Seq<char>,
    host: Seq<char>,
    uuid: Seq<char>,
    path: Seq<char>,
    label: Seq<char>,
)
    requires
        lacks(scheme, '\n'),
        lacks(host, '\n'),
        lacks(uuid, '\n'),
        lacks(path, '\n'),
        lacks(label, '\n'),
    ensures
        lacks(plain_link(scheme, host, uuid, path, label), '\n'),
{
    reveal_strlit("@");
    reveal_strlit(":443?encryption=none&type=ws&host=");
    reveal_strlit("&security=tls&sni=");
}

/// A client that reads the links line by line gets one for each protocol. A newline in the host
/// would part the links for vless and trojan.
pub proof fn law_one_link_per_line(host: Seq<char>, id: u128)
    requires
        lacks(host, '\n'),
    ensures
        pieces(link_text(host, uuid_text(id)), '\n') == seq![
            vmess_link(host, uuid_text(id)),
            vless_link(host, uuid_text(id)),
            trojan_link(host, uuid_text(id)),
        ],
{
    let uuid = uuid_text(id);
    let bytes = encode_utf8(vmess_json(host, uuid));
    let vmess = vmess_link(host, uuid);
    let vless = vless_link(host, uuid);
    let trojan = trojan_link(host, uuid);
    lemma_uuid_text(id);
    reveal_strlit("\n");
    reveal_strlit("vmess://");
    reveal_strlit("vless://");
    reveal_strlit("trojan://");
    reveal_strlit("&path=%2Fvless");
    reveal_strlit("&path=%2Ftrojan");
    reveal_strlit("#siren vless");
    reveal_strlit("#siren trojan");
    assert(lacks(vmess, '\n')) by {
        assert forall|i: int| 0 <= i < vmess.len() implies vmess[i] != '\n' by {
            if i >= 8 {
                lemma_base64_chars(bytes, '-', '_', i - 8);
            }
        }
    }
    lemma_plain_link("vless://"@, host, uuid, "&path=%2Fvless"@, "#siren vless"@);
    lemma_plain_link("trojan://"@, host, uuid, "&path=%2Ftrojan"@, "#siren trojan"@);
    let links = seq![vmess, vless, trojan];
    lemma_joined(links, '\n');
    reveal_with_fuel(joined, 3);
    assert(links.drop_last().drop_last()[0] == vmess);
    assert(links.drop_last().last() == vless);
    assert("\n"@ == seq!['\n']);
    assert(joined(links, '\n') == link_text(host, uuid));
}

/// The JSON text that a client reads from the link for vmess.
pub open spec fn vmess_meaning(link: Seq<char>) -> Seq<char> {
    decode_utf8(base64_bytes(link.skip("vmess://"@.len() as int), '-', '_'))
}

/// The client reads from the link for vmess what the link is for.
pub proof fn law_vmess_link_is_understood(host: Seq<char>, id: u128)
    ensures
        vmess_meaning(vmess_link(host, uuid_text(id))) == vmess_json(host, uuid_text(id)),
{
    let json = vmess_json(host, uuid_text(id));
    let text = base64_url_safe(encode_utf8(json));
    assert(("vmess://"@ + text).skip("vmess://"@.len() as int) == text);
    lemma_alphabets();
    law_base64_reads_back(encode_utf8(json), '-', '_');
    encode_utf8_decode_utf8(json);
}

/// The link for vless names the service as user and host, its port and path, and the host that is
/// asked for by name, and ends in its label.
pub proof fn law_vless_link_names_the_service(host: Seq<char>, uuid: Seq<char>)
    ensures
        vless_link(host, uuid) == "vless://"@ + uuid + "@"@ + host
            + ":443?encryption=none&type=ws&host="@ + host + "&path=%2Fvless"@
            + "&security=tls&sni="@ + host + "#siren vless"@,
{
}

/// The link for trojan names the service as user and host, its port and path, and the host that is
/// asked for by name, and ends in its label.
pub proof fn law_trojan_link_names_the_service(host: Seq<char>, uuid: Seq<char>)
    ensures
        trojan_link(host, uuid) == "trojan://"@ + uuid + "@"@ + host
            + ":443?encryption=none&type=ws&host="@ + host + "&path=%2Ftrojan"@
            + "&security=tls&sni="@ + host + "#siren trojan"@,
{
}

/// What the link for vmess holds gives the service's host as address, as host and as name, its
/// identifier, and the settings of the transport; there are no other members.
pub proof fn law_vmess_link_names_the_service(host: Seq<char>, uuid: Seq<char>)
    ensures
        ({
            let f = vmess_fields(host, uuid);
            &&& vmess_json(host, uuid) == json_object(members_of(f))
            &&& f.len() == 14
            &&& f.contains(("add"@, JsonValueView::Text(host)))
            &&& f.contains(("host"@, JsonValueView::Text(host)))
            &&& f.contains(("sni"@, JsonValueView::Text(host)))
            &&& f.contains(("id"@, JsonValueView::Text(uuid)))
            &&& f.contains(("port"@, JsonValueView::Text("443"@)))
            &&& f.contains(("path"@, JsonValueView::Text("/vmess"@)))
            &&& f.contains(("net"@, JsonValueView::Text("ws"@)))
            &&& f.contains(("tls"@, JsonValueView::Text("tls"@)))
            &&& f.contains(("scy"@, JsonValueView::Text("zero"@)))
            &&& f.contains(("aid"@, JsonValueView::Text("0"@)))
            &&& f.contains(("type"@, JsonValueView::Text("none"@)))
            &&& f.contains(("alpn"@, JsonValueView::Text(Seq::empty())))
            &&& f.contains(("ps"@, JsonValueView::Text("siren vmess"@)))
            &&& f.contains(("v"@, JsonValueView::Text("2"@)))
        }),
{
    let f = vmess_fields(host, uuid);
    assert(f[0] == ("add"@, JsonValueView::Text(host)));
    assert(f[1] == ("aid"@, JsonValueView::Text("0"@)));
    assert(f[2] == ("alpn"@, JsonValueView::Text(Seq::empty())));
    assert(f[3] == ("host"@, JsonValueView::Text(host)));
    assert(f[4] == ("id"@, JsonValueView::Text(uuid)));
    assert(f[5] == ("net"@, JsonValueView::Text("ws"@)));
    assert(f[6] == ("path"@, JsonValueView::Text("/vmess"@)));
    assert(f[7] == ("port"@, JsonValueView::Text("443"@)));
    assert(f[8] == ("ps"@, JsonValueView::Text("siren vmess"@)));
    assert(f[9] == ("scy"@, JsonValueView::Text("zero"@)));
    assert(f[10] == ("sni"@, JsonValueView::Text(host)));
    assert(f[11] == ("tls"@, JsonValueView::Text("tls"@)));
    assert(f[12] == ("type"@, JsonValueView::Text("none"@)));
    assert(f[13] == ("v"@, JsonValueView::Text("2"@)));
}

/// The links are those for vmess, vless and trojan, with newlines between them, whatever the host
/// is.
pub proof fn law_links_are_the_three(host: Seq<char>, uuid: Seq<char>)
    ensures
        link_text(host, uuid) == vmess_link(host, uuid) + "\n"@ + vless_link(host, uuid) + "\n"@
            + trojan_link(host, uuid),
        after_prefix(vmess_link(host, uuid), "vmess://"@) is Some,
        vmess_meaning(vmess_link(host, uuid)) == vmess_json(host, uuid),
        link_fits(host, uuid) <==> 4 * ((encode_utf8(vmess_json(host, uuid)).len() + 2) / 3)
            <= isize::MAX,
{
    let json = vmess_json(host, uuid);
    let text = base64_url_safe(encode_utf8(json));
    assert(("vmess://"@ + text).take("vmess://"@.len() as int) == "vmess://"@);
    assert(("vmess://"@ + text).skip("vmess://"@.len() as int) == text);
    lemma_alphabets();
    law_base64_reads_back(encode_utf8(json), '-', '_');
    encode_utf8_decode_utf8(json);
}

} // verus!

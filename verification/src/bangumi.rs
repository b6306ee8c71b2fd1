//! Subject-metadata shapes and the pure rules around them: season/month
//! mapping, image fallback, entry URL construction, pagination stepping,
//! character mapping, and the grouping of staff members by role.

use vstd::prelude::*;
use crate::decimal::{dec_spec, u32_to_dec};
use crate::json::JsonValue;
use crate::text::{contains_str, lit_string, str_eq, strings_view, trim_spec, trim_string};

verus! {

/// The image variants a subject may carry.
pub struct Images {
    pub common: Option<String>,
    pub medium: Option<String>,
    pub large: Option<String>,
}

/// One subject tag.
pub struct SubjectTag {
    pub name: String,
}

/// One infobox entry: a key and its loosely structured value.
pub struct InfoboxItem {
    pub key: String,
    pub value: JsonValue,
}

/// One episode: its air date text and reported status.
pub struct Episode {
    pub airdate: Option<String>,
    pub status: Option<String>,
}

/// One staff member as the metadata API reports it.
pub struct SubjectPersonItem {
    pub id: u32,
    pub name: String,
    pub relation: Option<String>,
}

/// One character as the metadata API reports it.
pub struct SubjectCharacterItem {
    pub id: u32,
    pub name: String,
    pub name_cn: Option<String>,
    pub relation: Option<String>,
}

/// The original-work field of a subject.
pub struct SubjectOriginResponse {
    pub id: u32,
    pub origin: Option<String>,
}

/// How many of a subject's episodes have aired.
pub struct SubjectAiredResponse {
    pub id: u32,
    pub aired_count: u32,
    pub total_count: u32,
}

/// One staff member, with a link to their page.
pub struct StaffPersonResponse {
    pub id: u32,
    pub name: String,
    pub url: String,
}

/// The staff members of one role.
pub struct StaffGroupResponse {
    pub role: String,
    pub people: Vec<StaffPersonResponse>,
}

/// The grouped staff of a subject.
pub struct SubjectStaffResponse {
    pub id: u32,
    pub groups: Vec<StaffGroupResponse>,
}

/// One character, with a link to their page.
pub struct CharacterLinkResponse {
    pub id: u32,
    pub name: String,
    pub url: String,
    pub relation: Option<String>,
}

/// The characters of a subject.
pub struct SubjectCharactersResponse {
    pub id: u32,
    pub characters: Vec<CharacterLinkResponse>,
}

/// The aliases of a subject.
pub struct SubjectAliasesResponse {
    pub id: u32,
    pub aliases: Vec<String>,
}

/// A subject summary, possibly translated.
pub struct SubjectSummaryResponse {
    pub id: u32,
    pub summary: String,
    pub translated: bool,
    pub error: Option<String>,
}

/// The filter labels of a subject: types, regions and audiences.
pub struct SubjectFiltersResponse {
    pub id: u32,
    pub types: Vec<String>,
    pub regions: Vec<String>,
    pub audiences: Vec<String>,
}

/// The months of a season name.
pub open spec fn season_months_spec(season: Seq<char>) -> Option<Seq<u32>> {
    if season == "winter"@ {
        Some(seq![1u32, 2u32, 3u32])
    } else if season == "spring"@ {
        Some(seq![4u32, 5u32, 6u32])
    } else if season == "summer"@ {
        Some(seq![7u32, 8u32, 9u32])
    } else if season == "autumn"@ {
        Some(seq![10u32, 11u32, 12u32])
    } else {
        None
    }
}

/// Map a season name to its three months; any other name is invalid.
pub fn season_months(season: &str) -> (r: Result<Vec<u32>, String>)
    ensures
        match r {
            Ok(ms) => season_months_spec(season@) == Some(ms@),
            Err(e) => season_months_spec(season@) is None && e@ == "invalid season"@,
        },
{
    let sv = crate::text::str_chars(season);
    let months: [u32; 3] = if crate::text::chars_eq(&sv, "winter") {
        [1, 2, 3]
    } else if crate::text::chars_eq(&sv, "spring") {
        [4, 5, 6]
    } else if crate::text::chars_eq(&sv, "summer") {
        [7, 8, 9]
    } else if crate::text::chars_eq(&sv, "autumn") {
        [10, 11, 12]
    } else {
        return Err(lit_string("invalid season"));
    };
    let mut out: Vec<u32> = Vec::new();
    out.push(months[0]);
    out.push(months[1]);
    out.push(months[2]);
    proof {
        assert(out@ =~= season_months_spec(season@)->0);
    }
    Ok(out)
}

/// The image used when a subject has none.
pub open spec fn default_image_spec() -> Seq<char> {
    "https://lain.bgm.tv/img/no_icon_subject.png"@
}

/// The image a subject is shown with: the first present of common, medium
/// and large, else the default placeholder.
pub open spec fn resolve_image_spec(images: Option<Images>) -> Seq<char> {
    match images {
        Some(im) => if im.common is Some {
            im.common->0@
        } else if im.medium is Some {
            im.medium->0@
        } else if im.large is Some {
            im.large->0@
        } else {
            default_image_spec()
        },
        None => default_image_spec(),
    }
}

/// Pick a usable image address: common, then medium, then large, then the
/// default placeholder.
pub fn resolve_image(images: Option<Images>) -> (r: String)
    ensures
        r@ == resolve_image_spec(images),
{
    match images {
        Some(im) => {
            if let Some(url) = im.common {
                url
            } else if let Some(url) = im.medium {
                url
            } else if let Some(url) = im.large {
                url
            } else {
                lit_string("https://lain.bgm.tv/img/no_icon_subject.png")
            }
        },
        None => lit_string("https://lain.bgm.tv/img/no_icon_subject.png"),
    }
}

/// The page address of a subject.
pub open spec fn subject_url_spec(id: u32) -> Seq<char> {
    "https://bgm.tv/subject/"@ + dec_spec(id as nat)
}

/// The page address of a subject.
pub fn subject_url(id: u32) -> (r: String)
    ensures
        r@ == subject_url_spec(id),
{
    lit_string("https://bgm.tv/subject/").concat(u32_to_dec(id).as_str())
}

/// The page address of a person.
pub open spec fn person_url_spec(id: u32) -> Seq<char> {
    "https://bgm.tv/person/"@ + dec_spec(id as nat)
}

/// The page address of a person.
pub fn person_url(id: u32) -> (r: String)
    ensures
        r@ == person_url_spec(id),
{
    lit_string("https://bgm.tv/person/").concat(u32_to_dec(id).as_str())
}

/// The page address of a character.
pub open spec fn character_url_spec(id: u32) -> Seq<char> {
    "https://bgm.tv/character/"@ + dec_spec(id as nat)
}

/// The page address of a character.
pub fn character_url(id: u32) -> (r: String)
    ensures
        r@ == character_url_spec(id),
{
    lit_string("https://bgm.tv/character/").concat(u32_to_dec(id).as_str())
}

/// The next page offset of a paginated fetch: stop on an empty page, step
/// by the larger of the reported and the requested page size, and stop when
/// the new offset reaches the reported total.
pub open spec fn next_page_offset_spec(
    offset: u32,
    payload_limit: u32,
    request_limit: u32,
    total: u32,
    page_len: nat,
) -> Option<u32> {
    if page_len == 0 {
        None
    } else {
        let step: u32 = if payload_limit > request_limit {
            payload_limit
        } else {
            request_limit
        };
        let next = offset + step;
        if next >= total {
            None
        } else {
            Some((offset + step) as u32)
        }
    }
}

/// Decide whether a paginated fetch continues, and from which offset.
pub fn next_page_offset(
    offset: u32,
    payload_limit: u32,
    request_limit: u32,
    total: u32,
    page_len: usize,
) -> (r: Option<u32>)
    requires
        offset + payload_limit <= u32::MAX,
        offset + request_limit <= u32::MAX,
    ensures
        r == next_page_offset_spec(offset, payload_limit, request_limit, total, page_len as nat),
{
    if page_len == 0 {
        return None;
    }
    let step = if payload_limit > request_limit {
        payload_limit
    } else {
        request_limit
    };
    let next = offset + step;
    if next >= total {
        None
    } else {
        Some(next)
    }
}

/// The model of one mapped character: the Chinese name when there is one,
/// else the original name, with the character's page address.
pub open spec fn character_model(it: SubjectCharacterItem) -> (Seq<char>, Seq<char>, Option<
    Seq<char>,
>) {
    (
        match it.name_cn {
            Some(cn) => cn@,
            None => it.name@,
        },
        character_url_spec(it.id),
        match it.relation {
            Some(rel) => Some(rel@),
            None => None,
        },
    )
}

/// Map the raw character items of a subject into link entries, in order.
pub fn map_characters(id: u32, items: Vec<SubjectCharacterItem>) -> (r: SubjectCharactersResponse)
    ensures
        r.id == id,
        r.characters@.len() == items@.len(),
        forall|i: int|
            0 <= i < items@.len() ==> {
                let c = #[trigger] r.characters@[i];
                &&& c.id == items@[i].id
                &&& (c.name@, c.url@, match c.relation {
                    Some(rel) => Some(rel@),
                    None => None,
                }) == character_model(items@[i])
            },
{
    let mut out: Vec<CharacterLinkResponse> = Vec::new();
    let n = items.len();
    for i in 0..n
        invariant
            n == items@.len(),
            out@.len() == i,
            forall|j: int|
                0 <= j < i ==> {
                    let c = #[trigger] out@[j];
                    &&& c.id == items@[j].id
                    &&& (c.name@, c.url@, match c.relation {
                        Some(rel) => Some(rel@),
                        None => None,
                    }) == character_model(items@[j])
                },
    {
        let it = &items[i];
        let name = match &it.name_cn {
            Some(cn) => cn.clone(),
            None => it.name.clone(),
        };
        let relation = match &it.relation {
            Some(rel) => Some(rel.clone()),
            None => None,
        };
        out.push(
            CharacterLinkResponse { id: it.id, name, url: character_url(it.id), relation },
        );
    }
    SubjectCharactersResponse { id, characters: out }
}

/// The mathematical value of one linked staff member.
pub struct StaffPersonModel {
    pub id: u32,
    pub name: Seq<char>,
    pub url: Seq<char>,
}

impl View for StaffPersonResponse {
    type V = StaffPersonModel;

    open spec fn view(&self) -> StaffPersonModel {
        StaffPersonModel { id: self.id, name: self.name@, url: self.url@ }
    }
}

/// The mathematical value of one role group.
pub struct StaffGroupModel {
    pub role: Seq<char>,
    pub people: Seq<StaffPersonModel>,
}

impl View for StaffGroupResponse {
    type V = StaffGroupModel;

    open spec fn view(&self) -> StaffGroupModel {
        StaffGroupModel {
            role: self.role@,
            people: self.people@.map_values(|p: StaffPersonResponse| p@),
        }
    }
}

/// The role a staff item is grouped under: its relation, when that is not
/// blank; blank or absent relations cannot be classified.
pub open spec fn role_of(it: SubjectPersonItem) -> Option<Seq<char>> {
    match it.relation {
        Some(v) => if trim_spec(v@).len() > 0 {
            Some(v@)
        } else {
            None
        },
        None => None,
    }
}

/// The linked form of one staff item.
pub open spec fn person_model(it: SubjectPersonItem) -> StaffPersonModel {
    StaffPersonModel { id: it.id, name: it.name@, url: person_url_spec(it.id) }
}

/// The members of one role, in item order.
pub open spec fn people_for(items: Seq<SubjectPersonItem>, role: Seq<char>) -> Seq<
    StaffPersonModel,
> {
    items.filter_map(
        |it: SubjectPersonItem|
            if role_of(it) == Some(role) {
                Some(person_model(it))
            } else {
                None
            },
    )
}

/// The distinct roles of the items, in first-seen order, from index `i` on.
pub open spec fn roles_from(
    acc: Seq<Seq<char>>,
    items: Seq<SubjectPersonItem>,
    i: int,
) -> Seq<Seq<char>>
    decreases items.len() - i,
{
    if i < 0 || i >= items.len() {
        acc
    } else {
        match role_of(items[i]) {
            Some(r) => roles_from(
                if acc.contains(r) {
                    acc
                } else {
                    acc.push(r)
                },
                items,
                i + 1,
            ),
            None => roles_from(acc, items, i + 1),
        }
    }
}

/// The distinct roles of the items, in first-seen order.
pub open spec fn distinct_roles(items: Seq<SubjectPersonItem>) -> Seq<Seq<char>> {
    roles_from(Seq::empty(), items, 0)
}

/// The roles that are listed first, in their fixed preferred order.
pub open spec fn preferred_roles() -> Seq<Seq<char>> {
    seq![
        "导演"@,
        "脚本"@,
        "分镜"@,
        "演出"@,
        "音乐"@,
        "人物设定"@,
        "系列构成"@,
        "美术监督"@,
        "色彩设计"@,
        "总作画监督"@,
        "作画监督"@,
        "摄影监督"@,
        "道具设计"@,
        "剪辑"@,
        "剪辑助手"@,
        "主题歌编曲"@,
        "主题歌作曲"@,
    ]
}

/// Code-point order on character sequences.
pub open spec fn chars_le(a: Seq<char>, b: Seq<char>) -> bool
    decreases a.len(),
{
    if a.len() == 0 {
        true
    } else if b.len() == 0 {
        false
    } else if (a[0] as u32) < (b[0] as u32) {
        true
    } else if (b[0] as u32) < (a[0] as u32) {
        false
    } else {
        chars_le(a.drop_first(), b.drop_first())
    }
}

/// Insert into an ascending sequence, before the first element that is not
/// smaller.
pub open spec fn insert_sorted(x: Seq<char>, s: Seq<Seq<char>>) -> Seq<Seq<char>>
    decreases s.len(),
{
    if s.len() == 0 {
        seq![x]
    } else if chars_le(x, s[0]) {
        seq![x] + s
    } else {
        seq![s[0]] + insert_sorted(x, s.drop_first())
    }
}

/// Insertion sort: fold the elements, in order, into an ascending sequence.
pub open spec fn sort_from(acc: Seq<Seq<char>>, xs: Seq<Seq<char>>) -> Seq<Seq<char>>
    decreases xs.len(),
{
    if xs.len() == 0 {
        acc
    } else {
        sort_from(insert_sorted(xs[0], acc), xs.drop_first())
    }
}

/// The roles of a staff listing, in output order: the preferred roles that
/// occur, in their fixed order, then every other role ascending.
pub open spec fn output_roles(items: Seq<SubjectPersonItem>) -> Seq<Seq<char>> {
    let distinct = distinct_roles(items);
    let preferred_present = preferred_roles().filter_map(
        |r: Seq<char>|
            if distinct.contains(r) {
                Some(r)
            } else {
                None
            },
    );
    let rest = distinct.filter_map(
        |r: Seq<char>|
            if preferred_roles().contains(r) {
                None
            } else {
                Some(r)
            },
    );
    preferred_present + sort_from(Seq::empty(), rest)
}

/// The grouped staff listing: one group per distinct role, in output-role
/// order, each holding its members in item order.
pub open spec fn staff_groups_spec(items: Seq<SubjectPersonItem>) -> Seq<StaffGroupModel> {
    output_roles(items).map_values(
        |r: Seq<char>| StaffGroupModel { role: r, people: people_for(items, r) },
    )
}

fn str_le(a: &str, b: &str) -> (r: bool)
    ensures
        r == chars_le(a@, b@),
{
    let av = crate::text::str_chars(a);
    let bv = crate::text::str_chars(b);
    let an = av.len();
    let bn = bv.len();
    let mut i: usize = 0;
    proof {
        assert(av@.skip(0) =~= av@);
        assert(bv@.skip(0) =~= bv@);
    }
    while i < an && i < bn
        invariant
            av@ == a@,
            bv@ == b@,
            an == av@.len(),
            bn == bv@.len(),
            0 <= i <= an,
            0 <= i <= bn,
            chars_le(a@, b@) == chars_le(a@.skip(i as int), b@.skip(i as int)),
        decreases an - i,
    {
        proof {
            assert(a@.skip(i as int)[0] == a@[i as int]);
            assert(b@.skip(i as int)[0] == b@[i as int]);
            assert(a@.skip(i as int).drop_first() =~= a@.skip(i + 1));
            assert(b@.skip(i as int).drop_first() =~= b@.skip(i + 1));
        }
        if (av[i] as u32) < (bv[i] as u32) {
            return true;
        }
        if (bv[i] as u32) < (av[i] as u32) {
            return false;
        }
        i = i + 1;
    }
    proof {
        if i >= an {
            assert(a@.skip(i as int).len() == 0);
        } else {
            assert(b@.skip(i as int).len() == 0);
            assert(a@.skip(i as int).len() > 0);
        }
    }
    i >= an
}

fn role_key(it: &SubjectPersonItem) -> (r: Option<String>)
    ensures
        match r {
            Some(v) => role_of(*it) == Some(v@),
            None => role_of(*it) is None,
        },
{
    match &it.relation {
        Some(v) => {
            let t = trim_string(v.as_str());
            if t.as_str().unicode_len() > 0 {
                Some(v.clone())
            } else {
                None
            }
        },
        None => None,
    }
}

fn collect_people(items: &Vec<SubjectPersonItem>, role: &str) -> (r: Vec<StaffPersonResponse>)
    ensures
        r@.map_values(|p: StaffPersonResponse| p@) == people_for(items@, role@),
{
    let ghost f = |it: SubjectPersonItem|
        if role_of(it) == Some(role@) {
            Some(person_model(it))
        } else {
            None
        };
    let mut out: Vec<StaffPersonResponse> = Vec::new();
    let n = items.len();
    for i in 0..n
        invariant
            n == items@.len(),
            f == (|it: SubjectPersonItem|
                if role_of(it) == Some(role@) {
                    Some(person_model(it))
                } else {
                    None
                }),
            out@.map_values(|p: StaffPersonResponse| p@) =~= items@.take(i as int).filter_map(f),
    {
        let it = &items[i];
        let keep: bool = match role_key(it) {
            Some(v) => str_eq(v.as_str(), role),
            None => false,
        };
        let ghost before = out@.map_values(|p: StaffPersonResponse| p@);
        if keep {
            out.push(
                StaffPersonResponse { id: it.id, name: it.name.clone(), url: person_url(it.id) },
            );
            proof {
                assert(out@.map_values(|p: StaffPersonResponse| p@) =~= before.push(
                    person_model(items@[i as int]),
                ));
            }
        }
        proof {
            items@.lemma_filter_map_take_succ(f, i as int);
            assert(out@.map_values(|p: StaffPersonResponse| p@) =~= items@.take(i + 1).filter_map(
                f,
            ));
        }
    }
    proof {
        assert(items@.take(n as int) =~= items@);
    }
    out
}

fn distinct_role_list(items: &Vec<SubjectPersonItem>) -> (r: Vec<String>)
    ensures
        strings_view(r@) == distinct_roles(items@),
{
    let mut out: Vec<String> = Vec::new();
    let n = items.len();
    proof {
        assert(strings_view(out@) =~= Seq::<Seq<char>>::empty());
    }
    for i in 0..n
        invariant
            n == items@.len(),
            roles_from(strings_view(out@), items@, i as int) == distinct_roles(items@),
    {
        let ghost before = strings_view(out@);
        match role_key(&items[i]) {
            Some(v) => {
                if !contains_str(&out, v.as_str()) {
                    out.push(v);
                    proof {
                        assert(strings_view(out@) =~= before.push(role_of(items@[i as int])->0));
                    }
                }
            },
            None => {},
        }
    }
    out
}

proof fn lemma_insert_sorted_at(x: Seq<char>, s: Seq<Seq<char>>, j: int)
    requires
        0 <= j <= s.len(),
        forall|t: int| 0 <= t < j ==> !chars_le(x, #[trigger] s[t]),
        j < s.len() ==> chars_le(x, s[j]),
    ensures
        insert_sorted(x, s) == s.take(j) + seq![x] + s.skip(j),
    decreases s.len(),
{
    if s.len() == 0 {
        assert(s.take(0) + seq![x] + s.skip(0) =~= seq![x]);
    } else if chars_le(x, s[0]) {
        assert(j == 0);
        assert(s.take(0) + seq![x] + s.skip(0) =~= seq![x] + s);
    } else {
        assert(j >= 1);
        let rest = s.drop_first();
        assert(forall|t: int| 0 <= t < j - 1 ==> rest[t] == (#[trigger] s[t + 1]));
        assert forall|t: int| 0 <= t < j - 1 implies !chars_le(x, #[trigger] rest[t]) by {
            assert(rest[t] == s[t + 1]);
        }
        assert(j - 1 < rest.len() ==> chars_le(x, rest[j - 1]));
        lemma_insert_sorted_at(x, rest, j - 1);
        assert(seq![s[0]] + (rest.take(j - 1) + seq![x] + rest.skip(j - 1)) =~= s.take(j) + seq![x]
            + s.skip(j));
    }
}

fn insert_sorted_exec(out: &mut Vec<String>, x: String)
    ensures
        strings_view(final (out)@) == insert_sorted(x@, strings_view(old(out)@)),
{
    let n = out.len();
    let ghost sv = strings_view(out@);
    let mut j: usize = 0;
    while j < n && !str_le(x.as_str(), out[j].as_str())
        invariant
            n == out@.len(),
            sv == strings_view(out@),
            out@ == old(out)@,
            0 <= j <= n,
            forall|t: int| 0 <= t < j ==> !chars_le(x@, #[trigger] sv[t]),
        decreases n - j,
    {
        j = j + 1;
    }
    proof {
        lemma_insert_sorted_at(x@, sv, j as int);
    }
    let ghost xv = x@;
    out.insert(j, x);
    proof {
        assert(strings_view(out@) =~= sv.take(j as int) + seq![xv] + sv.skip(j as int)) by {
            old(out)@.insert_ensures(j as int, out@[j as int]);
        }
    }
}

fn sort_role_list(roles: Vec<String>) -> (r: Vec<String>)
    ensures
        strings_view(r@) == sort_from(Seq::empty(), strings_view(roles@)),
{
    let ghost rv = strings_view(roles@);
    let mut acc: Vec<String> = Vec::new();
    let n = roles.len();
    proof {
        assert(rv.skip(0) =~= rv);
        assert(strings_view(acc@) =~= Seq::<Seq<char>>::empty());
    }
    for i in 0..n
        invariant
            n == roles@.len(),
            rv == strings_view(roles@),
            sort_from(strings_view(acc@), rv.skip(i as int)) == sort_from(Seq::empty(), rv),
    {
        proof {
            assert(rv.skip(i as int)[0] == roles@[i as int]@);
            assert(rv.skip(i as int).drop_first() =~= rv.skip(i + 1));
        }
        insert_sorted_exec(&mut acc, roles[i].clone());
    }
    proof {
        assert(rv.skip(n as int) =~= Seq::<Seq<char>>::empty());
    }
    acc
}

fn preferred_roles_vec() -> (r: Vec<String>)
    ensures
        strings_view(r@) == preferred_roles(),
{
    let mut out: Vec<String> = Vec::new();
    out.push(lit_string("导演"));
    out.push(lit_string("脚本"));
    out.push(lit_string("分镜"));
    out.push(lit_string("演出"));
    out.push(lit_string("音乐"));
    out.push(lit_string("人物设定"));
    out.push(lit_string("系列构成"));
    out.push(lit_string("美术监督"));
    out.push(lit_string("色彩设计"));
    out.push(lit_string("总作画监督"));
    out.push(lit_string("作画监督"));
    out.push(lit_string("摄影监督"));
    out.push(lit_string("道具设计"));
    out.push(lit_string("剪辑"));
    out.push(lit_string("剪辑助手"));
    out.push(lit_string("主题歌编曲"));
    out.push(lit_string("主题歌作曲"));
    proof {
        assert(strings_view(out@) =~= preferred_roles());
    }
    out
}

/// Group a staff listing by role: the preferred roles first, in their fixed
/// order, then every other role ascending; each group holds its members in
/// item order. Items with a blank or missing relation are left out.
pub fn build_staff_groups(items: Vec<SubjectPersonItem>) -> (r: Vec<StaffGroupResponse>)
    ensures
        r@.map_values(|g: StaffGroupResponse| g@) == staff_groups_spec(items@),
{
    let preferred = preferred_roles_vec();
    let distinct = distinct_role_list(&items);
    let ghost dv = distinct_roles(items@);
    let ghost fp = |r: Seq<char>|
        if dv.contains(r) {
            Some(r)
        } else {
            None
        };
    let mut role_order: Vec<String> = Vec::new();
    let pn = preferred.len();
    for i in 0..pn
        invariant
            pn == preferred@.len(),
            strings_view(preferred@) == preferred_roles(),
            strings_view(distinct@) == dv,
            dv == distinct_roles(items@),
            fp == (|r: Seq<char>|
                if dv.contains(r) {
                    Some(r)
                } else {
                    None
                }),
            strings_view(role_order@) =~= preferred_roles().take(i as int).filter_map(fp),
    {
        let ghost before = strings_view(role_order@);
        if contains_str(&distinct, preferred[i].as_str()) {
            role_order.push(preferred[i].clone());
            proof {
                assert(strings_view(role_order@) =~= before.push(
                    strings_view(preferred@)[i as int],
                ));
            }
        }
        proof {
            preferred_roles().lemma_filter_map_take_succ(fp, i as int);
            assert(strings_view(role_order@) =~= preferred_roles().take(i + 1).filter_map(fp));
        }
    }
    proof {
        assert(preferred_roles().take(pn as int) =~= preferred_roles());
    }
    let ghost fr = |r: Seq<char>|
        if preferred_roles().contains(r) {
            None
        } else {
            Some(r)
        };
    let mut rest: Vec<String> = Vec::new();
    let dn = distinct.len();
    for i in 0..dn
        invariant
            dn == distinct@.len(),
            strings_view(preferred@) == preferred_roles(),
            strings_view(distinct@) == dv,
            dv == distinct_roles(items@),
            fr == (|r: Seq<char>|
                if preferred_roles().contains(r) {
                    None
                } else {
                    Some(r)
                }),
            strings_view(rest@) =~= dv.take(i as int).filter_map(fr),
    {
        let ghost before = strings_view(rest@);
        if !contains_str(&preferred, distinct[i].as_str()) {
            rest.push(distinct[i].clone());
            proof {
                assert(strings_view(rest@) =~= before.push(dv[i as int]));
            }
        }
        proof {
            dv.lemma_filter_map_take_succ(fr, i as int);
            assert(strings_view(rest@) =~= dv.take(i + 1).filter_map(fr));
        }
    }
    proof {
        assert(dv.take(dn as int) =~= dv);
    }
    let rest_sorted = sort_role_list(rest);
    let ghost all_roles = output_roles(items@);
    let mut role_list = role_order;
    let rn = rest_sorted.len();
    let ghost base = strings_view(role_list@);
    for i in 0..rn
        invariant
            rn == rest_sorted@.len(),
            strings_view(role_list@) =~= base + strings_view(rest_sorted@).take(i as int),
    {
        let ghost before = strings_view(role_list@);
        role_list.push(rest_sorted[i].clone());
        proof {
            assert(strings_view(role_list@) =~= before.push(strings_view(rest_sorted@)[i as int]));
            assert(strings_view(role_list@) =~= base + strings_view(rest_sorted@).take(i + 1));
        }
    }
    proof {
        assert(strings_view(rest_sorted@).take(rn as int) =~= strings_view(rest_sorted@));
        assert(strings_view(role_list@) =~= all_roles);
    }
    let mut groups: Vec<StaffGroupResponse> = Vec::new();
    let gn = role_list.len();
    for i in 0..gn
        invariant
            gn == role_list@.len(),
            strings_view(role_list@) == all_roles,
            all_roles == output_roles(items@),
            groups@.map_values(|g: StaffGroupResponse| g@) =~= all_roles.take(i as int).map_values(
                |r: Seq<char>| StaffGroupModel { role: r, people: people_for(items@, r) },
            ),
    {
        let ghost before = groups@.map_values(|g: StaffGroupResponse| g@);
        let people = collect_people(&items, role_list[i].as_str());
        groups.push(StaffGroupResponse { role: role_list[i].clone(), people });
        proof {
            assert(groups@.map_values(|g: StaffGroupResponse| g@) =~= before.push(
                StaffGroupModel {
                    role: all_roles[i as int],
                    people: people_for(items@, all_roles[i as int]),
                },
            ));
            assert(groups@.map_values(|g: StaffGroupResponse| g@) =~= all_roles.take(i + 1)
                .map_values(
                |r: Seq<char>| StaffGroupModel { role: r, people: people_for(items@, r) },
            ));
        }
    }
    proof {
        assert(all_roles.take(gn as int) =~= all_roles);
        assert(groups@.map_values(|g: StaffGroupResponse| g@) =~= staff_groups_spec(items@));
    }
    groups
}

/// Assemble the grouped staff of a subject from its raw staff listing.
pub fn subject_staff(id: u32, items: Vec<SubjectPersonItem>) -> (r: SubjectStaffResponse)
    ensures
        r.id == id,
        r.groups@.map_values(|g: StaffGroupResponse| g@) == staff_groups_spec(items@),
{
    SubjectStaffResponse { id, groups: build_staff_groups(items) }
}

} // verus!

//! Building a page from its declaration: the metadata of the structure, the
//! refresh interval, and the descriptor that holds the emitted template.

pub mod field;

use crate::meta::{
    entry_text, is_named, is_text_key, key_span, value_span, Attribute, AttributeView, Data,
    DataView, Declaration, DeclarationView, Meta, MetaList, MetaView, MetadataError,
    MetadataErrorKind, Nested, NestedView, Span,
};
use crate::page::field::{
    attribute_offence, attribute_offences, field_html, field_model, field_of, field_offences,
    fields_html, parse, FieldView,
};
use crate::seqs::{
    first_some, lemma_first_some, lemma_first_some_at, lemma_first_some_none,
    lemma_join_map_push, views,
};
use crate::text::{
    decimal, is_digit, is_number, lemma_decimal_is_number, number_value, parse_u64, push_decimal,
    strip_suffix,
};
use vstd::prelude::*;
use vstd::string::*;

verus! {

/// A span of time in whole milliseconds.
#[derive(Clone, Copy, Debug, PartialEq, Eq, Structural)]
pub struct Interval {
    pub millis: u128,
}

/// What a duration literal stands for: digits followed by `ms` or by `s`, and
/// nothing else. The number must fit `u64`, whichever the unit.
pub open spec fn duration_literal(s: Seq<char>) -> Option<Interval> {
    if "ms"@.is_suffix_of(s) {
        let digits = s.take(s.len() - "ms"@.len());
        if is_number(digits) && number_value(digits) <= u64::MAX {
            Some(Interval { millis: number_value(digits) as u128 })
        } else {
            None
        }
    } else if "s"@.is_suffix_of(s) {
        let digits = s.take(s.len() - "s"@.len());
        if is_number(digits) && number_value(digits) <= u64::MAX {
            Some(Interval { millis: (number_value(digits) * 1000) as u128 })
        } else {
            None
        }
    } else {
        None
    }
}

/// Reads a duration literal.
pub fn parse_datetime(str: &str) -> (r: Option<Interval>)
    ensures
        r == duration_literal(str@),
{
    if let Some(ms) = strip_suffix(str, "ms") {
        match parse_u64(ms) {
            Some(n) => Some(Interval { millis: n as u128 }),
            None => None,
        }
    } else if let Some(sec) = strip_suffix(str, "s") {
        match parse_u64(sec) {
            Some(n) => Some(Interval { millis: n as u128 * 1000 }),
            None => None,
        }
    } else {
        None
    }
}

/// What the metadata of the structure says: the route of the page, and how
/// often it reloads.
#[derive(Clone, Debug, PartialEq, Eq)]
pub struct StructAttributes {
    pub url: String,
    pub refresh: Option<Interval>,
}

/// The view of a `StructAttributes`.
pub struct StructAttributesView {
    pub url: Seq<char>,
    pub refresh: Option<Interval>,
}

impl View for StructAttributes {
    type V = StructAttributesView;

    open spec fn view(&self) -> StructAttributesView {
        StructAttributesView { url: self.url@, refresh: self.refresh }
    }
}

/// The entries of an attribute where it is a `page(...)` group; no entries
/// otherwise.
pub open spec fn group_entries(attr: AttributeView) -> Seq<NestedView> {
    match attr.meta {
        Some(MetaView::List(list)) => if list.key.ident == Some("page"@) {
            list.nested
        } else {
            Seq::empty()
        },
        _ => Seq::empty(),
    }
}

/// The entries of all `page(...)` groups, in the order of the source.
pub open spec fn page_entries(attrs: Seq<AttributeView>) -> Seq<NestedView>
    decreases attrs.len(),
{
    if attrs.len() == 0 {
        Seq::empty()
    } else {
        page_entries(attrs.drop_last()) + group_entries(attrs.last())
    }
}

/// What is wrong with an entry of a `page(...)` group: a `refresh` that is
/// no duration literal, or a key that is neither `path` nor `refresh` with a
/// string for its value. Entries that are not `key = value` with a plain key
/// are passed over.
pub open spec fn page_offence(item: NestedView) -> Option<MetadataError> {
    if !is_named(item) {
        None
    } else if is_text_key(item, "path"@) {
        None
    } else if is_text_key(item, "refresh"@) {
        if duration_literal(entry_text(item)) is None {
            Some(MetadataError { kind: MetadataErrorKind::InvalidDuration, span: value_span(item) })
        } else {
            None
        }
    } else {
        Some(MetadataError { kind: MetadataErrorKind::UnknownAttribute, span: key_span(item) })
    }
}

/// `page_offence` for each entry.
pub open spec fn page_offences(items: Seq<NestedView>) -> Seq<Option<MetadataError>> {
    Seq::new(items.len(), |i: int| page_offence(items[i]))
}

/// The first offence among the entries that an attribute has as a
/// `page(...)` group.
pub open spec fn group_offence(attr: AttributeView) -> Option<MetadataError> {
    match first_some(page_offences(group_entries(attr)), 0) {
        Some(i) => page_offences(group_entries(attr))[i],
        None => None,
    }
}

/// `group_offence` for each attribute.
pub open spec fn group_offences(attrs: Seq<AttributeView>) -> Seq<Option<MetadataError>> {
    Seq::new(attrs.len(), |i: int| group_offence(attrs[i]))
}

/// The text of the last entry `name = "text"`.
pub open spec fn last_text(items: Seq<NestedView>, name: Seq<char>) -> Option<Seq<char>>
    decreases items.len(),
{
    if items.len() == 0 {
        None
    } else if is_text_key(items.last(), name) {
        Some(entry_text(items.last()))
    } else {
        last_text(items.drop_last(), name)
    }
}

/// The route that the entries declare: the last `path`, or the empty text
/// where none is declared.
pub open spec fn declared_path(items: Seq<NestedView>) -> Seq<char> {
    match last_text(items, "path"@) {
        Some(path) => path,
        None => Seq::empty(),
    }
}

/// The interval that the entries declare: the last `refresh`.
pub open spec fn declared_refresh(items: Seq<NestedView>) -> Option<Interval> {
    match last_text(items, "refresh"@) {
        Some(literal) => duration_literal(literal),
        None => None,
    }
}

/// What the attributes of a structure say of its page. The first offending
/// entry of the first offending group decides the error; without offence, a
/// page whose route is missing or empty is refused at `span`.
pub open spec fn struct_attributes_of(span: Span, attrs: Seq<AttributeView>) -> Result<
    StructAttributesView,
    MetadataError,
> {
    match first_some(group_offences(attrs), 0) {
        Some(i) => Err(group_offences(attrs)[i]->0),
        None => if declared_path(page_entries(attrs)).len() == 0 {
            Err(MetadataError { kind: MetadataErrorKind::MissingPath, span })
        } else {
            Ok(
                StructAttributesView {
                    url: declared_path(page_entries(attrs)),
                    refresh: declared_refresh(page_entries(attrs)),
                },
            )
        },
    }
}

/// The last entry of a name in two runs of entries is the last one in the
/// second run, or else the last one in the first.
pub proof fn lemma_last_text_add(a: Seq<NestedView>, b: Seq<NestedView>, name: Seq<char>)
    ensures
        last_text(a + b, name) == match last_text(b, name) {
            Some(text) => Some(text),
            None => last_text(a, name),
        },
    decreases b.len(),
{
    if b.len() == 0 {
        assert(a + b =~= a);
    } else {
        assert((a + b).last() == b.last());
        assert((a + b).drop_last() =~= a + b.drop_last());
        lemma_last_text_add(a, b.drop_last(), name);
    }
}

impl StructAttributes {
    /// Reads the entries of one `page(...)` group into `self`.
    fn parse_group(&mut self, list: &MetaList) -> (r: Result<(), MetadataError>)
        ensures
            match r {
                Ok(()) => {
                    &&& first_some(page_offences(list@.nested), 0) is None
                    &&& final(self).url@ == match last_text(list@.nested, "path"@) {
                        Some(path) => path,
                        None => old(self).url@,
                    }
                    &&& final(self).refresh == match last_text(list@.nested, "refresh"@) {
                        Some(literal) => duration_literal(literal),
                        None => old(self).refresh,
                    }
                },
                Err(e) => first_some(page_offences(list@.nested), 0) matches Some(i)
                    && page_offences(list@.nested)[i] == Some(e),
            },
    {
        let n: usize = list.nested.len();
        let ghost items = views(list.nested@);
        let mut i: usize = 0;
        while i < n
            invariant
                0 <= i <= n,
                n == list.nested@.len(),
                items == views(list.nested@),
                forall|j: int| 0 <= j < i ==> (#[trigger] page_offence(items[j])) is None,
                self.url@ == match last_text(items.take(i as int), "path"@) {
                    Some(path) => path,
                    None => old(self).url@,
                },
                self.refresh == match last_text(items.take(i as int), "refresh"@) {
                    Some(literal) => duration_literal(literal),
                    None => old(self).refresh,
                },
            decreases n - i,
        {
            proof {
                reveal_strlit("path");
                reveal_strlit("refresh");
                assert("path"@.len() != "refresh"@.len());
                assert(items[i as int] == list.nested@[i as int]@);
                assert(items.take(i + 1).drop_last() =~= items.take(i as int));
                assert(items.take(i + 1).last() == items[i as int]);
            }
            match &list.nested[i] {
                Nested::NameValue(nv) => {
                    match (&nv.key.ident, &nv.value.text) {
                        (Some(name), Some(text)) => {
                            if name.as_str().eq("path") {
                                self.url = text.clone();
                            } else if name.as_str().eq("refresh") {
                                match parse_datetime(text.as_str()) {
                                    Some(interval) => {
                                        self.refresh = Some(interval);
                                    },
                                    None => {
                                        proof {
                                            lemma_first_some_at(page_offences(items), 0, i as int);
                                        }
                                        return Err(
                                            MetadataError {
                                                kind: MetadataErrorKind::InvalidDuration,
                                                span: nv.value.span,
                                            },
                                        );
                                    },
                                }
                            } else {
                                proof {
                                    lemma_first_some_at(page_offences(items), 0, i as int);
                                }
                                return Err(
                                    MetadataError {
                                        kind: MetadataErrorKind::UnknownAttribute,
                                        span: nv.key.span,
                                    },
                                );
                            }
                        },
                        (Some(_), None) => {
                            proof {
                                lemma_first_some_at(page_offences(items), 0, i as int);
                            }
                            return Err(
                                MetadataError {
                                    kind: MetadataErrorKind::UnknownAttribute,
                                    span: nv.key.span,
                                },
                            );
                        },
                        (None, _) => {},
                    }
                },
                Nested::Other => {},
            }
            i = i + 1;
        }
        proof {
            assert(items.take(n as int) =~= items);
            lemma_first_some_none(page_offences(items), 0);
        }
        Ok(())
    }

    /// Reads the attributes of a structure declared at `span`.
    pub fn parse(span: Span, attributes: &Vec<Attribute>) -> (r: Result<
        StructAttributes,
        MetadataError,
    >)
        ensures
            match r {
                Ok(found) => struct_attributes_of(span, views(attributes@)) == Ok::<
                    StructAttributesView,
                    MetadataError,
                >(found@),
                Err(e) => struct_attributes_of(span, views(attributes@)) == Err::<
                    StructAttributesView,
                    MetadataError,
                >(e),
            },
    {
        let mut result = StructAttributes { url: String::new(), refresh: None };
        let n: usize = attributes.len();
        let ghost attrs = views(attributes@);
        let mut i: usize = 0;
        while i < n
            invariant
                0 <= i <= n,
                n == attributes@.len(),
                attrs == views(attributes@),
                forall|j: int| 0 <= j < i ==> (#[trigger] group_offence(attrs[j])) is None,
                result.url@ == declared_path(page_entries(attrs.take(i as int))),
                result.refresh == declared_refresh(page_entries(attrs.take(i as int))),
            decreases n - i,
        {
            let ghost attr = attrs[i as int];
            let ghost seen = page_entries(attrs.take(i as int));
            proof {
                assert(attr == attributes@[i as int]@);
                assert(attrs.take(i + 1).drop_last() =~= attrs.take(i as int));
                assert(attrs.take(i + 1).last() == attr);
                lemma_last_text_add(seen, group_entries(attr), "path"@);
                lemma_last_text_add(seen, group_entries(attr), "refresh"@);
                assert(last_text(Seq::<NestedView>::empty(), "path"@) is None);
                assert(last_text(Seq::<NestedView>::empty(), "refresh"@) is None);
            }
            match &attributes[i].meta {
                Some(Meta::List(list)) => {
                    let is_page = match &list.key.ident {
                        Some(name) => name.as_str().eq("page"),
                        None => false,
                    };
                    if is_page {
                        match result.parse_group(list) {
                            Ok(()) => {},
                            Err(e) => {
                                proof {
                                    lemma_first_some_at(group_offences(attrs), 0, i as int);
                                }
                                return Err(e);
                            },
                        }
                    }
                },
                _ => {},
            }
            i = i + 1;
        }
        proof {
            assert(attrs.take(n as int) =~= attrs);
            lemma_first_some_none(group_offences(attrs), 0);
        }
        if result.url.as_str().unicode_len() == 0 {
            Err(MetadataError { kind: MetadataErrorKind::MissingPath, span })
        } else {
            Ok(result)
        }
    }
}

/// A page ready to be served: its route, and the emitted template in two
/// parts. The serialised page instance goes between `head` and `tail`, which
/// is the one place of the template that is filled in at render time.
#[derive(Clone, Debug, PartialEq, Eq)]
pub struct PageDescriptor {
    pub url: String,
    pub head: String,
    pub tail: String,
    pub refresh: Option<Interval>,
}

/// The view of a `PageDescriptor`.
pub struct PageDescriptorView {
    pub url: Seq<char>,
    pub head: Seq<char>,
    pub tail: Seq<char>,
    pub refresh: Option<Interval>,
}

impl View for PageDescriptor {
    type V = PageDescriptorView;

    open spec fn view(&self) -> PageDescriptorView {
        PageDescriptorView {
            url: self.url@,
            head: self.head@,
            tail: self.tail@,
            refresh: self.refresh,
        }
    }
}

impl PageDescriptorView {
    /// The page with `json`, the serialised instance, filled in.
    pub open spec fn html(self, json: Seq<char>) -> Seq<char> {
        self.head + json + self.tail
    }
}

/// The template up to the place of the serialised instance: a container
/// named after the type and bound to the model, with the markup of the
/// fields inside, and the start of the script that activates it.
pub open spec fn page_head(ident: Seq<char>, fields: Seq<FieldView>) -> Seq<char> {
    "<div id=\"page_"@ + ident + "\" data-bind=\"with: model\">"@ + fields_html(fields)
        + "</div><script type='text/javascript'>"@ + "load('page_"@ + ident + "', "@
}

/// The directive that makes the page reload every `refresh`; nothing where
/// no interval is declared.
pub open spec fn reload_directive(refresh: Option<Interval>) -> Seq<char> {
    match refresh {
        Some(interval) => "enable_auto_reload("@ + decimal(interval.millis as nat) + ");"@,
        None => Seq::empty(),
    }
}

/// The template after the place of the serialised instance: the end of the
/// activation, the reload directive, and the end of the script.
pub open spec fn page_tail(refresh: Option<Interval>) -> Seq<char> {
    ");"@ + reload_directive(refresh) + "</script>"@
}

/// The descriptor that a declaration gives. The attributes of the structure
/// are read first, then the declaration must be a structure, then its fields
/// are read; the first of these that fails decides the error.
pub open spec fn descriptor_of(decl: DeclarationView) -> Result<PageDescriptorView, MetadataError> {
    match struct_attributes_of(decl.span, decl.attrs) {
        Err(e) => Err(e),
        Ok(attributes) => match decl.data {
            DataView::Other => Err(
                MetadataError { kind: MetadataErrorKind::NotAStruct, span: decl.span },
            ),
            DataView::Struct(fields) => match field_model(fields) {
                Err(e) => Err(e),
                Ok(model) => Ok(
                    PageDescriptorView {
                        url: attributes.url,
                        head: page_head(decl.ident, model),
                        tail: page_tail(attributes.refresh),
                        refresh: attributes.refresh,
                    },
                ),
            },
        },
    }
}

/// Builds the descriptor of the page that `input` declares.
pub fn generate(input: &Declaration) -> (r: Result<PageDescriptor, MetadataError>)
    ensures
        match r {
            Ok(page) => descriptor_of(input@) == Ok::<PageDescriptorView, MetadataError>(page@),
            Err(e) => descriptor_of(input@) == Err::<PageDescriptorView, MetadataError>(e),
        },
{
    let attributes = match StructAttributes::parse(input.span, &input.attrs) {
        Ok(attributes) => attributes,
        Err(e) => {
            return Err(e);
        },
    };
    let fields = match &input.data {
        Data::Struct(declared) => match parse(declared) {
            Ok(fields) => fields,
            Err(e) => {
                return Err(e);
            },
        },
        Data::Other => {
            return Err(MetadataError { kind: MetadataErrorKind::NotAStruct, span: input.span });
        },
    };
    let ghost model = views(fields@);
    let mut html = String::new();
    html.append("<div id=\"page_");
    html.append(input.ident.as_str());
    html.append("\" data-bind=\"with: model\">");
    let ghost opened = html@;
    let mut javascript = String::new();
    let n: usize = fields.len();
    let mut i: usize = 0;
    while i < n
        invariant
            0 <= i <= n,
            n == fields@.len(),
            model == views(fields@),
            html@ == opened + fields_html(model.take(i as int)),
            javascript@ == Seq::<char>::empty(),
        decreases n - i,
    {
        let field = &fields[i];
        field.write_html(&mut html);
        field.write_javascript(&mut javascript);
        proof {
            assert(model[i as int] == field@);
            assert(model.take(i + 1) =~= model.take(i as int).push(field@));
            lemma_join_map_push(
                model.take(i as int),
                field@,
                |field: FieldView| field_html(field),
            );
            assert(html@ =~= opened + fields_html(model.take(i + 1)));
        }
        i = i + 1;
    }
    assert(model.take(n as int) =~= model);
    html.append("</div><script type='text/javascript'>");
    html.append(javascript.as_str());
    html.append("load('page_");
    html.append(input.ident.as_str());
    html.append("', ");
    assert(html@ =~= page_head(input@.ident, model));
    let mut tail = String::new();
    tail.append(");");
    if let Some(refresh) = attributes.refresh {
        tail.append("enable_auto_reload(");
        push_decimal(&mut tail, refresh.millis);
        tail.append(");");
    }
    tail.append("</script>");
    assert(tail@ =~= page_tail(attributes.refresh));
    Ok(PageDescriptor { url: attributes.url, head: html, tail, refresh: attributes.refresh })
}

impl PageDescriptor {
    /// The route that the page is served at.
    pub fn url(&self) -> (r: &str)
        ensures
            r@ == self@.url,
    {
        self.url.as_str()
    }

    /// Renders the page: the template with `json`, the serialised instance,
    /// filled in.
    pub fn html(&self, json: &str) -> (r: String)
        ensures
            r@ == self@.html(json@),
    {
        let mut out = self.head.clone();
        out.append(json);
        out.append(self.tail.as_str());
        out
    }
}

/// Digits followed by `ms` are read as that many milliseconds, and digits
/// followed by `s` as that many seconds.
pub proof fn lemma_duration_literal_accepted(digits: Seq<char>)
    requires
        is_number(digits),
        number_value(digits) <= u64::MAX,
    ensures
        duration_literal(digits + "ms"@) == Some(Interval { millis: number_value(digits) as u128 }),
        duration_literal(digits + "s"@) == Some(
            Interval { millis: (number_value(digits) * 1000) as u128 },
        ),
{
    reveal_strlit("ms");
    reveal_strlit("s");
    let with_ms = digits + "ms"@;
    assert(with_ms.subrange(with_ms.len() - 2, with_ms.len() as int) =~= "ms"@);
    assert(with_ms.take(with_ms.len() - 2) =~= digits);
    let with_s = digits + "s"@;
    assert(with_s.subrange(with_s.len() - 1, with_s.len() as int) =~= "s"@);
    assert(with_s.take(with_s.len() - 1) =~= digits);
    assert(!"ms"@.is_suffix_of(with_s)) by {
        if "ms"@.is_suffix_of(with_s) {
            let tail = with_s.subrange(with_s.len() - 2, with_s.len() as int);
            assert(tail[0] == with_s[with_s.len() - 2]);
            assert(with_s[with_s.len() - 2] == digits[digits.len() - 1]);
            assert(is_digit(digits[digits.len() - 1]));
        }
    }
}

/// A text that is not digits followed by `ms` or by `s`, with a number that
/// fits `u64`, is no duration literal.
pub proof fn lemma_duration_literal_refused(s: Seq<char>)
    requires
        forall|digits: Seq<char>|
            #[trigger] is_number(digits) && number_value(digits) <= u64::MAX ==> s != digits
                + "ms"@ && s != digits + "s"@,
    ensures
        duration_literal(s) is None,
{
    if "ms"@.is_suffix_of(s) {
        let digits = s.take(s.len() - "ms"@.len());
        if is_number(digits) && number_value(digits) <= u64::MAX {
            assert(s =~= digits + "ms"@);
        }
    } else if "s"@.is_suffix_of(s) {
        let digits = s.take(s.len() - "s"@.len());
        if is_number(digits) && number_value(digits) <= u64::MAX {
            assert(s =~= digits + "s"@);
        }
    }
}

/// The reload directive carries the declared interval in milliseconds: what
/// stands between its brackets is a number, and it reads back as the
/// interval.
pub proof fn lemma_reload_directive(interval: Interval)
    ensures
        reload_directive(Some(interval)) == "enable_auto_reload("@ + decimal(
            interval.millis as nat,
        ) + ");"@,
        is_number(decimal(interval.millis as nat)),
        number_value(decimal(interval.millis as nat)) == interval.millis,
        reload_directive(None) == Seq::<char>::empty(),
{
    lemma_decimal_is_number(interval.millis as nat);
}

/// One of the entries is `path = "text"`.
pub open spec fn declares_path(items: Seq<NestedView>) -> bool {
    exists|i: int| 0 <= i < items.len() && is_text_key(#[trigger] items[i], "path"@)
}

/// Where no entry goes by a name, `last_text` finds none.
pub proof fn lemma_last_text_none(items: Seq<NestedView>, name: Seq<char>)
    requires
        forall|i: int| 0 <= i < items.len() ==> !is_text_key(#[trigger] items[i], name),
    ensures
        last_text(items, name) is None,
    decreases items.len(),
{
    if items.len() > 0 {
        assert(items.last() == items[items.len() - 1]);
        assert forall|i: int| 0 <= i < items.drop_last().len() implies !is_text_key(
            #[trigger] items.drop_last()[i],
            name,
        ) by {
            assert(items.drop_last()[i] == items[i]);
        }
        lemma_last_text_none(items.drop_last(), name);
    }
}

/// A structure whose `page(...)` groups declare no path is refused, and for
/// that reason, unless one of their entries offends.
pub proof fn lemma_missing_path(decl: DeclarationView)
    requires
        !declares_path(page_entries(decl.attrs)),
    ensures
        descriptor_of(decl) is Err,
        first_some(group_offences(decl.attrs), 0) is None ==> descriptor_of(decl) == Err::<
            PageDescriptorView,
            MetadataError,
        >(MetadataError { kind: MetadataErrorKind::MissingPath, span: decl.span }),
{
    lemma_last_text_none(page_entries(decl.attrs), "path"@);
}

/// A page that is built has a route, and it is not empty.
pub proof fn lemma_built_page_has_route(decl: DeclarationView)
    requires
        descriptor_of(decl) is Ok,
    ensures
        descriptor_of(decl)->Ok_0.url.len() > 0,
        descriptor_of(decl)->Ok_0.url == declared_path(page_entries(decl.attrs)),
{
}

/// A field that is refused refuses the page.
pub proof fn lemma_refused_field_refuses_page(decl: DeclarationView, f: int)
    requires
        decl.data matches DataView::Struct(fields) && 0 <= f < fields.len() && field_of(
            fields[f],
        ) is Err,
    ensures
        descriptor_of(decl) is Err,
{
    let fields = decl.data->Struct_0;
    assert(field_offences(fields)[f] is Some);
    lemma_first_some(field_offences(fields), 0);
}

/// A column declaration that is refused refuses the page: the declaration of
/// a structure one of whose fields carries it is not built.
pub proof fn lemma_refused_column_refuses_page(decl: DeclarationView, f: int, a: int)
    requires
        decl.data matches DataView::Struct(fields) && 0 <= f < fields.len() && 0 <= a
            < fields[f].attrs.len() && attribute_offence(fields[f].attrs[a]) is Some,
    ensures
        descriptor_of(decl) is Err,
{
    let fields = decl.data->Struct_0;
    let attrs = fields[f].attrs;
    assert(attribute_offences(attrs)[a] is Some);
    lemma_first_some(attribute_offences(attrs), 0);
    lemma_refused_field_refuses_page(decl, f);
}

} // verus!

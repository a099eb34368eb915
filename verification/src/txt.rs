//! Text primitives of the codec: the scalar grammar, coordinate
//! formatting and tokenizing, boolean and enum text forms, and the
//! char-level string helpers everything else is built on.
use vstd::prelude::*;
use vstd::string::StrSliceExecFns;

use crate::model::AltitudeMode;
use crate::model::ColorMode;
use crate::model::Coord;
use crate::model::KmlNum;
use crate::model::RefreshMode;
use crate::model::Units;
use crate::model::ViewRefreshMode;
use crate::model::is_digit;
use crate::model::valid_number;
use crate::model::valid_body_at;
use crate::views::CoordV;

verus! {

/// Whitespace that separates coordinate tokens.
pub open spec fn is_space(c: char) -> bool {
    c == ' ' || c == '\t' || c == '\r' || c == '\n'
}

// -------------------------------------------------------------------
// Char-level string helpers.
// -------------------------------------------------------------------

/// The characters of a string, as a vector.
pub fn str_chars(s: &str) -> (r: Vec<char>)
    ensures
        r@ == s@,
{
    let n = s.unicode_len();
    let mut r: Vec<char> = Vec::new();
    let mut i: usize = 0;
    while i < n
        invariant
            n == s@.len(),
            i <= n,
            r@ == s@.take(i as int),
        decreases n - i,
    {
        r.push(s.get_char(i));
        i = i + 1;
        proof {
            assert(r@ =~= s@.take(i as int));
        }
    }
    proof {
        assert(s@.take(n as int) =~= s@);
    }
    r
}

/// Relies on `str`'s `FromIterator` impl via `String::from_iter`: the
/// collected string holds exactly the characters of the iterator,
/// in order.
#[verifier::external_body]
pub fn chars_to_string(v: &Vec<char>) -> (s: String)
    ensures
        s@ == v@,
{
    v.iter().collect()
}

/// Whether two string slices hold the same characters.
pub fn str_eq(a: &str, b: &str) -> (r: bool)
    ensures
        r == (a@ == b@),
{
    let sa = a.to_owned();
    let sb = b.to_owned();
    sa.eq(&sb)
}

/// Append every character of `s` to `out`.
pub fn push_str_chars(out: &mut Vec<char>, s: &str)
    ensures
        final(out)@ == old(out)@ + s@,
{
    let n = s.unicode_len();
    let mut i: usize = 0;
    while i < n
        invariant
            n == s@.len(),
            i <= n,
            out@ == old(out)@ + s@.take(i as int),
        decreases n - i,
    {
        out.push(s.get_char(i));
        i = i + 1;
        proof {
            assert(old(out)@ + s@.take(i as int) =~= (old(out)@ + s@.take(i - 1)).push(
                s@[i - 1],
            ));
        }
    }
    proof {
        assert(s@.take(n as int) =~= s@);
    }
}

// -------------------------------------------------------------------
// The scalar grammar.
// -------------------------------------------------------------------

/// Decide [`valid_number`] on a character vector.
pub fn check_number(v: &Vec<char>) -> (b: bool)
    ensures
        b == valid_number(v@),
{
    let ghost s = v@;
    let ghost body = crate::model::number_body(s);
    let mut i: usize = 0;
    if v.len() > 0 && (v[0] == '+' || v[0] == '-') {
        i = 1;
    }
    let ghost off = i as int;
    proof {
        assert(body =~= s.skip(off));
        assert(forall|q: int| 0 <= q < body.len() ==> body[q] == s[q + off]);
    }
    // scan the integer digits
    let start = i;
    while i < v.len() && '0' <= v[i] && v[i] <= '9'
        invariant
            start as int == off,
            off <= i <= v.len(),
            s == v@,
            forall|q: int| off <= q < i ==> is_digit(#[trigger] s[q]),
        decreases v.len() - i,
    {
        i = i + 1;
    }
    if i == start {
        // no leading digit: no split can exist
        proof {
            assert forall|k: int| !valid_body_at(body, k) by {
                if valid_body_at(body, k) {
                    assert(is_digit(body[0]));
                    assert(body[0] == s[off]);
                }
            }
        }
        return false;
    }
    let ghost kw = i - off;
    proof {
        assert(forall|q: int| 0 <= q < kw ==> is_digit(#[trigger] body[q]));
    }
    if i == v.len() {
        proof {
            assert(kw == body.len());
            assert(valid_body_at(body, kw));
        }
        return true;
    }
    if v[i] != '.' {
        // a stray character: every candidate split fails
        proof {
            assert(!is_digit(s[i as int]) && s[i as int] != '.');
            assert(body[kw] == s[i as int]);
            assert forall|k: int| !valid_body_at(body, k) by {
                if valid_body_at(body, k) {
                    if k > kw {
                        assert(is_digit(body[kw]));
                    } else {
                        assert(k < body.len());
                        if k < kw {
                            assert(body[k] == '.');
                            assert(is_digit(body[k]));
                        } else {
                            assert(body[k] == '.');
                        }
                    }
                }
            }
        }
        return false;
    }
    // fraction digits
    i = i + 1;
    let fs = i;
    while i < v.len() && '0' <= v[i] && v[i] <= '9'
        invariant
            off < fs <= i <= v.len(),
            s == v@,
            forall|q: int| fs <= q < i ==> is_digit(#[trigger] s[q]),
        decreases v.len() - i,
    {
        i = i + 1;
    }
    if i == v.len() && i > fs {
        proof {
            assert(body[kw] == s[kw + off]);
            assert(body[kw] == '.');
            assert forall|q: int| kw < q < body.len() implies is_digit(#[trigger] body[q]) by {
                assert(body[q] == s[q + off]);
            }
            assert(valid_body_at(body, kw));
        }
        true
    } else {
        proof {
            let bad = i as int;
            assert(body[kw] == '.');
            assert forall|k: int| !valid_body_at(body, k) by {
                if valid_body_at(body, k) {
                    if k > kw {
                        assert(is_digit(body[kw]));
                    } else if k < kw {
                        assert(k < body.len());
                        assert(is_digit(body[k]));
                        assert(body[k] == '.');
                    } else {
                        // the fraction must be non-empty digits to the end
                        if bad == s.len() {
                            assert(body.len() == kw + 1);
                            assert(!(k + 1 < body.len()));
                            assert(k < body.len());
                        } else {
                            assert(!is_digit(s[bad]));
                            assert(body[bad - off] == s[bad]);
                            assert(kw < bad - off < body.len());
                            assert(is_digit(body[bad - off]));
                        }
                    }
                }
            }
        }
        false
    }
}

impl KmlNum {
    /// Whether the scalar text satisfies the grammar.
    pub open spec fn wf(&self) -> bool {
        valid_number(self@)
    }

    /// Parse a scalar from text; rejects exactly the texts outside the
    /// grammar.
    pub fn from_text(s: &str) -> (r: Option<KmlNum>)
        ensures
            match r {
                Some(n) => n@ == s@ && valid_number(s@),
                None => !valid_number(s@),
            },
    {
        let v = str_chars(s);
        if check_number(&v) {
            Some(KmlNum { text: s.to_owned() })
        } else {
            None
        }
    }

    /// Wrap text known to satisfy the grammar.
    pub fn from_literal(s: &str) -> (r: KmlNum)
        requires
            valid_number(s@),
        ensures
            r@ == s@,
    {
        KmlNum { text: s.to_owned() }
    }

    /// The canonical text of the scalar.
    pub fn as_str(&self) -> (r: &str)
        ensures
            r@ == self@,
    {
        self.text.as_str()
    }
}

impl Default for KmlNum {
    /// The scalar zero, rendered `"0"`.
    fn default() -> (r: Self)
        ensures
            r@ == "0"@,
            r.wf(),
    {
        proof {
            reveal_strlit("0");
            assert(crate::model::number_body("0"@) =~= "0"@);
            assert(is_digit("0"@[0]));
            assert(valid_body_at(crate::model::number_body("0"@), 1));
        }
        KmlNum::from_literal("0")
    }
}

// -------------------------------------------------------------------
// Boolean and enum text forms.
// -------------------------------------------------------------------

/// Booleans serialize exactly as `"0"` / `"1"`.
pub open spec fn bool_text(b: bool) -> Seq<char> {
    if b {
        "1"@
    } else {
        "0"@
    }
}

/// The rendered form of a boolean field.
pub fn bool_str(b: bool) -> (r: &'static str)
    ensures
        r@ == bool_text(b),
{
    if b {
        "1"
    } else {
        "0"
    }
}

/// The schema text of an altitude mode.
pub open spec fn altitude_mode_text(m: AltitudeMode) -> Seq<char> {
    match m {
        AltitudeMode::ClampToGround => "clampToGround"@,
        AltitudeMode::RelativeToGround => "relativeToGround"@,
        AltitudeMode::Absolute => "absolute"@,
    }
}

/// The schema text of a refresh mode.
pub open spec fn refresh_mode_text(m: RefreshMode) -> Seq<char> {
    match m {
        RefreshMode::OnChange => "onChange"@,
        RefreshMode::OnInterval => "onInterval"@,
        RefreshMode::OnExpire => "onExpire"@,
    }
}

/// The schema text of a view refresh mode.
pub open spec fn view_refresh_mode_text(m: ViewRefreshMode) -> Seq<char> {
    match m {
        ViewRefreshMode::Never => "never"@,
        ViewRefreshMode::OnRequest => "onRequest"@,
        ViewRefreshMode::OnStop => "onStop"@,
        ViewRefreshMode::OnRegion => "onRegion"@,
    }
}

/// The schema text of a colour mode.
pub open spec fn color_mode_text(m: ColorMode) -> Seq<char> {
    match m {
        ColorMode::Default => "default"@,
        ColorMode::Normal => "normal"@,
        ColorMode::Random => "random"@,
    }
}

/// The schema text of a hot-spot unit.
pub open spec fn units_text(u: Units) -> Seq<char> {
    match u {
        Units::Fraction => "fraction"@,
        Units::Pixels => "pixels"@,
        Units::InsetPixels => "insetPixels"@,
    }
}

impl AltitudeMode {
    /// The rendered schema text.
    pub fn as_str(&self) -> (r: &'static str)
        ensures
            r@ == altitude_mode_text(*self),
    {
        match *self {
            AltitudeMode::ClampToGround => "clampToGround",
            AltitudeMode::RelativeToGround => "relativeToGround",
            AltitudeMode::Absolute => "absolute",
        }
    }

    /// Parse the schema text; `None` exactly on unknown text.
    pub fn from_text(s: &str) -> (r: Option<AltitudeMode>)
        ensures
            r == crate::decode::am_of_text(s@),
    {
        if str_eq(s, "clampToGround") {
            Some(AltitudeMode::ClampToGround)
        } else if str_eq(s, "relativeToGround") {
            Some(AltitudeMode::RelativeToGround)
        } else if str_eq(s, "absolute") {
            Some(AltitudeMode::Absolute)
        } else {
            None
        }
    }
}

impl Default for AltitudeMode {
    /// The schema default: clamp to ground.
    fn default() -> (r: Self)
        ensures
            r == AltitudeMode::ClampToGround,
    {
        AltitudeMode::ClampToGround
    }
}

impl RefreshMode {
    /// The rendered schema text.
    pub fn as_str(&self) -> (r: &'static str)
        ensures
            r@ == refresh_mode_text(*self),
    {
        match *self {
            RefreshMode::OnChange => "onChange",
            RefreshMode::OnInterval => "onInterval",
            RefreshMode::OnExpire => "onExpire",
        }
    }

    /// Parse the schema text; `None` exactly on unknown text.
    pub fn from_text(s: &str) -> (r: Option<RefreshMode>)
        ensures
            r == crate::decode::refresh_mode_of_text(s@),
    {
        if str_eq(s, "onChange") {
            Some(RefreshMode::OnChange)
        } else if str_eq(s, "onInterval") {
            Some(RefreshMode::OnInterval)
        } else if str_eq(s, "onExpire") {
            Some(RefreshMode::OnExpire)
        } else {
            None
        }
    }
}

impl ViewRefreshMode {
    /// The rendered schema text.
    pub fn as_str(&self) -> (r: &'static str)
        ensures
            r@ == view_refresh_mode_text(*self),
    {
        match *self {
            ViewRefreshMode::Never => "never",
            ViewRefreshMode::OnRequest => "onRequest",
            ViewRefreshMode::OnStop => "onStop",
            ViewRefreshMode::OnRegion => "onRegion",
        }
    }

    /// Parse the schema text; `None` exactly on unknown text.
    pub fn from_text(s: &str) -> (r: Option<ViewRefreshMode>)
        ensures
            r == crate::decode::view_refresh_mode_of_text(s@),
    {
        if str_eq(s, "never") {
            Some(ViewRefreshMode::Never)
        } else if str_eq(s, "onRequest") {
            Some(ViewRefreshMode::OnRequest)
        } else if str_eq(s, "onStop") {
            Some(ViewRefreshMode::OnStop)
        } else if str_eq(s, "onRegion") {
            Some(ViewRefreshMode::OnRegion)
        } else {
            None
        }
    }
}

impl ColorMode {
    /// The rendered schema text.
    pub fn as_str(&self) -> (r: &'static str)
        ensures
            r@ == color_mode_text(*self),
    {
        match *self {
            ColorMode::Default => "default",
            ColorMode::Normal => "normal",
            ColorMode::Random => "random",
        }
    }

    /// Parse the schema text; `None` exactly on unknown text.
    pub fn from_text(s: &str) -> (r: Option<ColorMode>)
        ensures
            r == crate::decode::color_mode_of_text(s@),
    {
        if str_eq(s, "default") {
            Some(ColorMode::Default)
        } else if str_eq(s, "normal") {
            Some(ColorMode::Normal)
        } else if str_eq(s, "random") {
            Some(ColorMode::Random)
        } else {
            None
        }
    }
}

impl Default for ColorMode {
    /// The schema default colour mode.
    fn default() -> (r: Self)
        ensures
            r == ColorMode::Default,
    {
        ColorMode::Default
    }
}

impl Units {
    /// The rendered schema text.
    pub fn as_str(&self) -> (r: &'static str)
        ensures
            r@ == units_text(*self),
    {
        match *self {
            Units::Fraction => "fraction",
            Units::Pixels => "pixels",
            Units::InsetPixels => "insetPixels",
        }
    }

    /// Parse the schema text; `None` exactly on unknown text.
    pub fn from_text(s: &str) -> (r: Option<Units>)
        ensures
            r == crate::decode::units_of_text(s@),
    {
        if str_eq(s, "fraction") {
            Some(Units::Fraction)
        } else if str_eq(s, "pixels") {
            Some(Units::Pixels)
        } else if str_eq(s, "insetPixels") {
            Some(Units::InsetPixels)
        } else {
            None
        }
    }
}

// -------------------------------------------------------------------
// Coordinate text.
// -------------------------------------------------------------------

/// The text of one coordinate: `"x,y"` or `"x,y,z"`.
pub open spec fn coord_text(c: CoordV) -> Seq<char> {
    match c.z {
        Some(z) => c.x + seq![','] + c.y + seq![','] + z,
        None => c.x + seq![','] + c.y,
    }
}

/// The text of a coordinate sequence: newline-joined.
pub open spec fn coords_text(s: Seq<CoordV>) -> Seq<char>
    decreases s.len(),
{
    if s.len() == 0 {
        Seq::empty()
    } else if s.len() == 1 {
        coord_text(s[0])
    } else {
        coord_text(s[0]) + seq!['\n'] + coords_text(s.drop_first())
    }
}

impl Coord {
    /// Build a coordinate from scalars.
    pub fn new(x: KmlNum, y: KmlNum, z: Option<KmlNum>) -> (r: Coord)
        ensures
            r@ == (CoordV {
                x: x@,
                y: y@,
                z: match z {
                    Some(ref n) => Some(n@),
                    None => None,
                },
            }),
    {
        Coord { x, y, z }
    }

    /// Append this coordinate's text to `out`.
    pub fn push_text(&self, out: &mut Vec<char>)
        ensures
            final(out)@ == old(out)@ + coord_text(self@),
    {
        push_str_chars(out, self.x.as_str());
        out.push(',');
        push_str_chars(out, self.y.as_str());
        if let Some(z) = &self.z {
            out.push(',');
            push_str_chars(out, z.as_str());
            proof {
                assert(out@ =~= old(out)@ + coord_text(self@));
            }
        } else {
            proof {
                assert(out@ =~= old(out)@ + coord_text(self@));
            }
        }
    }

    /// The text of this coordinate.
    pub fn to_text(&self) -> (s: String)
        ensures
            s@ == coord_text(self@),
    {
        let mut out: Vec<char> = Vec::new();
        self.push_text(&mut out);
        chars_to_string(&out)
    }
}

impl Default for Coord {
    /// The origin, with no altitude.
    fn default() -> (r: Self)
        ensures
            r@ == (CoordV { x: "0"@, y: "0"@, z: None }),
            r.x.wf(),
            r.y.wf(),
    {
        Coord { x: KmlNum::default(), y: KmlNum::default(), z: None }
    }
}

/// The newline-joined text of a coordinate list.
pub fn coords_string(coords: &Vec<Coord>) -> (s: String)
    ensures
        s@ == coords_text(crate::views::coords_view(coords@)),
{
    let mut out: Vec<char> = Vec::new();
    let mut i: usize = 0;
    let ghost cv = crate::views::coords_view(coords@);
    proof {
        assert(cv.len() == coords@.len());
    }
    while i < coords.len()
        invariant
            i <= coords.len(),
            cv == crate::views::coords_view(coords@),
            cv.len() == coords@.len(),
            out@ == coords_text(cv.take(i as int)),
            forall|q: int| 0 <= q < coords@.len() ==> cv[q] == #[trigger] coords@[q]@,
        decreases coords.len() - i,
    {
        if i > 0 {
            out.push('\n');
        }
        coords[i].push_text(&mut out);
        i = i + 1;
        proof {
            lemma_coords_text_take(cv, i as int);
        }
    }
    proof {
        assert(cv.take(coords@.len() as int) =~= cv);
    }
    chars_to_string(&out)
}

/// Splitting off the last coordinate of a prefix.
proof fn lemma_coords_text_take(s: Seq<CoordV>, i: int)
    requires
        1 <= i <= s.len(),
    ensures
        coords_text(s.take(i)) == if i == 1 {
            coord_text(s[0])
        } else {
            coords_text(s.take(i - 1)) + seq!['\n'] + coord_text(s[i - 1])
        },
    decreases i,
{
    if i == 1 {
        assert(s.take(1) =~= seq![s[0]]);
        assert(coords_text(seq![s[0]]) == coord_text(s[0]));
    } else {
        let t = s.take(i);
        assert(t.len() == i);
        assert(t[0] == s[0]);
        assert(t.drop_first() =~= s.drop_first().take(i - 1));
        lemma_coords_text_take(s.drop_first(), i - 1);
        if i - 1 == 1 {
            assert(s.take(i - 1) =~= seq![s[0]]);
            assert(s.drop_first().take(0) =~= Seq::<CoordV>::empty());
        } else {
            assert(s.take(i - 1)[0] == s[0]);
            assert(s.take(i - 1).drop_first() =~= s.drop_first().take(i - 2));
        }
    }
}

// -------------------------------------------------------------------
// Coordinate text parsing.
// -------------------------------------------------------------------

/// The length of the leading whitespace-free token.
pub open spec fn token_len(s: Seq<char>) -> int
    decreases s.len(),
{
    if s.len() == 0 || is_space(s[0]) {
        0
    } else {
        1 + token_len(s.drop_first())
    }
}

/// The token length never exceeds the text.
pub proof fn lemma_token_len_le(s: Seq<char>)
    ensures
        0 <= token_len(s) <= s.len(),
    decreases s.len(),
{
    if s.len() > 0 && !is_space(s[0]) {
        lemma_token_len_le(s.drop_first());
    }
}

/// A scan that stops at the first space computes `token_len`.
pub proof fn lemma_token_len_at(s: Seq<char>, m: int)
    requires
        0 <= m <= s.len(),
        forall|q: int| 0 <= q < m ==> !is_space(#[trigger] s[q]),
        m == s.len() || is_space(s[m]),
    ensures
        token_len(s) == m,
    decreases m,
{
    if m == 0 {
    } else {
        assert(!is_space(s[0]));
        lemma_token_len_at(s.drop_first(), m - 1);
    }
}

/// The whitespace-separated tokens of a coordinate text.
pub open spec fn spec_tokens(s: Seq<char>) -> Seq<Seq<char>>
    decreases s.len(),
{
    if s.len() == 0 {
        Seq::empty()
    } else if is_space(s[0]) {
        spec_tokens(s.drop_first())
    } else {
        proof {
            lemma_token_len_le(s);
            lemma_token_len_le(s.drop_first());
        }
        seq![s.take(token_len(s))] + spec_tokens(s.skip(token_len(s)))
    }
}

/// The length of the leading comma-free field.
pub open spec fn field_len(s: Seq<char>) -> int
    decreases s.len(),
{
    if s.len() == 0 || s[0] == ',' {
        0
    } else {
        1 + field_len(s.drop_first())
    }
}

/// The field length never exceeds the text.
pub proof fn lemma_field_len_le(s: Seq<char>)
    ensures
        0 <= field_len(s) <= s.len(),
    decreases s.len(),
{
    if s.len() > 0 && s[0] != ',' {
        lemma_field_len_le(s.drop_first());
    }
}

/// A scan that stops at the first comma computes `field_len`.
pub proof fn lemma_field_len_at(s: Seq<char>, m: int)
    requires
        0 <= m <= s.len(),
        forall|q: int| 0 <= q < m ==> (#[trigger] s[q]) != ',',
        m == s.len() || s[m] == ',',
    ensures
        field_len(s) == m,
    decreases m,
{
    if m == 0 {
    } else {
        assert(s[0] != ',');
        lemma_field_len_at(s.drop_first(), m - 1);
    }
}

/// The comma-separated fields of one coordinate token; empty fields
/// are kept, so the field count is the comma count plus one.
pub open spec fn split_fields(s: Seq<char>) -> Seq<Seq<char>>
    decreases s.len(),
{
    proof {
        lemma_field_len_le(s);
    }
    if field_len(s) == s.len() {
        seq![s]
    } else {
        seq![s.take(field_len(s))] + split_fields(s.skip(field_len(s) + 1))
    }
}

/// One token parses to a coordinate exactly when it has two or three
/// fields and every field is a number; the error names the token.
pub open spec fn spec_parse_coord(t: Seq<char>) -> Result<CoordV, crate::views::KmlErrorV> {
    let fs = split_fields(t);
    if fs.len() == 2 && valid_number(fs[0]) && valid_number(fs[1]) {
        Ok(CoordV { x: fs[0], y: fs[1], z: None })
    } else if fs.len() == 3 && valid_number(fs[0]) && valid_number(fs[1]) && valid_number(fs[2]) {
        Ok(CoordV { x: fs[0], y: fs[1], z: Some(fs[2]) })
    } else {
        Err(crate::views::KmlErrorV::NumericParse(t))
    }
}

/// Parse a token list, failing fast on the first bad token.
pub open spec fn parse_coord_list(ts: Seq<Seq<char>>) -> Result<
    Seq<CoordV>,
    crate::views::KmlErrorV,
>
    decreases ts.len(),
{
    if ts.len() == 0 {
        Ok(Seq::empty())
    } else {
        match spec_parse_coord(ts[0]) {
            Err(e) => Err(e),
            Ok(c) => match parse_coord_list(ts.drop_first()) {
                Err(e) => Err(e),
                Ok(cs) => Ok(seq![c] + cs),
            },
        }
    }
}

/// What a whole coordinate text parses to.
pub open spec fn spec_parse_coords(s: Seq<char>) -> Result<Seq<CoordV>, crate::views::KmlErrorV> {
    parse_coord_list(spec_tokens(s))
}

/// Copy a character range.
fn subvec(v: &Vec<char>, i: usize, j: usize) -> (r: Vec<char>)
    requires
        i <= j <= v@.len(),
    ensures
        r@ == v@.subrange(i as int, j as int),
{
    let mut r: Vec<char> = Vec::new();
    let mut q: usize = i;
    while q < j
        invariant
            i <= q <= j <= v@.len(),
            r@ == v@.subrange(i as int, q as int),
        decreases j - q,
    {
        r.push(v[q]);
        q = q + 1;
        proof {
            assert(r@ =~= v@.subrange(i as int, q as int));
        }
    }
    r
}

/// A scalar from characters; rejects exactly non-numbers.
pub fn num_from_chars(v: &Vec<char>) -> (r: Option<KmlNum>)
    ensures
        match r {
            Some(n) => n@ == v@ && valid_number(v@),
            None => !valid_number(v@),
        },
{
    if check_number(v) {
        Some(KmlNum { text: chars_to_string(v) })
    } else {
        None
    }
}

/// Split one token on commas.
#[verifier::loop_isolation(false)]
fn split_token(t: &Vec<char>) -> (fields: Vec<Vec<char>>)
    ensures
        fields.deep_view() == split_fields(t@),
{
    let mut fields: Vec<Vec<char>> = Vec::new();
    let mut pos: usize = 0;
    let ghost whole = t@;
    proof {
        assert(t@.skip(0) =~= t@);
        assert(fields.deep_view() =~~= Seq::<Seq<char>>::empty());
        assert(Seq::<Seq<char>>::empty() + split_fields(t@) =~= split_fields(t@));
    }
    loop
        invariant
            pos <= t@.len(),
            split_fields(whole) == fields.deep_view() + split_fields(t@.skip(pos as int)),
        decreases t@.len() - pos + 1,
    {
        let mut j: usize = pos;
        while j < t.len() && t[j] != ','
            invariant
                pos <= j <= t@.len(),
                forall|q: int| pos <= q < j ==> (#[trigger] t@[q]) != ',',
            decreases t@.len() - j,
        {
            j = j + 1;
        }
        proof {
            assert forall|q: int| 0 <= q < j - pos implies (#[trigger] t@.skip(pos as int)[q])
                != ',' by {
                assert(t@.skip(pos as int)[q] == t@[q + pos]);
            }
            if j < t@.len() {
                assert(t@.skip(pos as int)[j - pos] == t@[j as int]);
            }
            lemma_field_len_at(t@.skip(pos as int), j - pos);
        }
        let f = subvec(t, pos, j);
        let ghost prev = fields.deep_view();
        let ghost fv = f@;
        fields.push(f);
        proof {
            assert(fields@.last().deep_view() =~= fv);
            assert(fields.deep_view() =~~= prev.push(fv));
            assert(fv =~= t@.skip(pos as int).take(j - pos));
        }
        if j == t.len() {
            proof {
                assert(split_fields(t@.skip(pos as int)) =~= seq![t@.skip(pos as int)]);
                assert(fv =~= t@.skip(pos as int));
                assert(fields.deep_view() =~~= prev + seq![t@.skip(pos as int)]);
            }
            return fields;
        }
        proof {
            assert(split_fields(t@.skip(pos as int)) == seq![t@.skip(pos as int).take(j - pos)]
                + split_fields(t@.skip(pos as int).skip(j - pos + 1)));
            assert(t@.skip(pos as int).skip(j - pos + 1) =~= t@.skip(j + 1));
            assert(fields.deep_view() + split_fields(t@.skip(j + 1)) =~~= prev + (seq![
                t@.skip(pos as int).take(j - pos),
            ] + split_fields(t@.skip(j + 1))));
        }
        pos = j + 1;
    }
}

/// Parse one whitespace-free token into a coordinate.
fn parse_coord_token(t: &Vec<char>) -> (r: Result<Coord, crate::model::KmlError>)
    ensures
        match (r, spec_parse_coord(t@)) {
            (Ok(c), Ok(cv)) => c@ == cv,
            (Err(e), Err(ev)) => e@ == ev,
            _ => false,
        },
{
    let fields = split_token(t);
    proof {
        assert forall|q: int| 0 <= q < fields@.len() implies (#[trigger] fields@[q]).deep_view()
            =~= fields@[q]@ by {
        }
        assert(fields.deep_view().len() == fields@.len());
        assert forall|q: int| 0 <= q < fields@.len() implies split_fields(t@)[q]
            == #[trigger] fields@[q]@ by {
            assert(fields.deep_view()[q] == fields@[q].deep_view());
        }
    }
    if fields.len() == 2 {
        let x = num_from_chars(&fields[0]);
        let y = num_from_chars(&fields[1]);
        if let (Some(x), Some(y)) = (x, y) {
            return Ok(Coord { x, y, z: None });
        }
        return Err(crate::model::KmlError::NumericParse(chars_to_string(t)));
    }
    if fields.len() == 3 {
        let x = num_from_chars(&fields[0]);
        let y = num_from_chars(&fields[1]);
        let z = num_from_chars(&fields[2]);
        if let (Some(x), Some(y), Some(z)) = (x, y, z) {
            return Ok(Coord { x, y, z: Some(z) });
        }
        return Err(crate::model::KmlError::NumericParse(chars_to_string(t)));
    }
    Err(crate::model::KmlError::NumericParse(chars_to_string(t)))
}

/// Parse a whole coordinate text: whitespace-separated tokens, each a
/// comma-separated coordinate.  Fails on the first bad token, naming
/// it.
#[verifier::loop_isolation(false)]
pub fn parse_coords(v: &Vec<char>) -> (r: Result<Vec<Coord>, crate::model::KmlError>)
    ensures
        match (r, spec_parse_coords(v@)) {
            (Ok(cs), Ok(cvs)) => crate::views::coords_view(cs@) == cvs,
            (Err(e), Err(ev)) => e@ == ev,
            _ => false,
        },
{
    let mut acc: Vec<Coord> = Vec::new();
    let mut pos: usize = 0;
    let ghost whole = v@;
    proof {
        assert(crate::views::coords_view(acc@) =~= Seq::<CoordV>::empty());
        assert(v@.skip(0) =~= v@);
        match parse_coord_list(spec_tokens(v@)) {
            Ok(rest) => {
                assert(crate::views::coords_view(acc@) + rest =~= rest);
            },
            Err(_) => {},
        }
    }
    while pos < v.len()
        invariant
            pos <= v@.len(),
            parse_coord_list(spec_tokens(whole)) == (match parse_coord_list(
                spec_tokens(v@.skip(pos as int)),
            ) {
                Ok(rest) => Ok::<_, crate::views::KmlErrorV>(
                    crate::views::coords_view(acc@) + rest,
                ),
                Err(e) => Err(e),
            }),
        decreases v@.len() - pos,
    {
        if v[pos] == ' ' || v[pos] == '\t' || v[pos] == '\r' || v[pos] == '\n' {
            proof {
                assert(v@.skip(pos as int).drop_first() =~= v@.skip(pos as int + 1));
                assert(spec_tokens(v@.skip(pos as int)) == spec_tokens(v@.skip(pos as int + 1)));
            }
            pos = pos + 1;
            continue;
        }
        let mut j: usize = pos;
        while j < v.len() && v[j] != ' ' && v[j] != '\t' && v[j] != '\r' && v[j] != '\n'
            invariant
                pos <= j <= v@.len(),
                forall|q: int| pos <= q < j ==> !is_space(#[trigger] v@[q]),
            decreases v@.len() - j,
        {
            j = j + 1;
        }
        proof {
            assert forall|q: int| 0 <= q < j - pos implies !is_space(
                #[trigger] v@.skip(pos as int)[q],
            ) by {
                assert(v@.skip(pos as int)[q] == v@[q + pos]);
            }
            if j < v@.len() {
                assert(v@.skip(pos as int)[j - pos] == v@[j as int]);
            }
            lemma_token_len_at(v@.skip(pos as int), j - pos);
        }
        let tok = subvec(v, pos, j);
        proof {
            assert(tok@ =~= v@.skip(pos as int).take(j - pos));
            assert(spec_tokens(v@.skip(pos as int)) == seq![tok@] + spec_tokens(
                v@.skip(pos as int).skip(j - pos),
            ));
            assert(v@.skip(pos as int).skip(j - pos) =~= v@.skip(j as int));
            assert((seq![tok@] + spec_tokens(v@.skip(j as int)))[0] == tok@);
            assert((seq![tok@] + spec_tokens(v@.skip(j as int))).drop_first() =~= spec_tokens(
                v@.skip(j as int),
            ));
        }
        match parse_coord_token(&tok) {
            Err(e) => {
                return Err(e);
            },
            Ok(c) => {
                let ghost prev = crate::views::coords_view(acc@);
                acc.push(c);
                proof {
                    assert(crate::views::coords_view(acc@) =~= prev.push(c@));
                    assert forall|rest: Seq<CoordV>|
                        prev.push(c@) + rest =~= prev + (seq![c@] + rest) by {
                    }
                }
            },
        }
        pos = j;
    }
    proof {
        assert(v@.skip(v@.len() as int) =~= Seq::<char>::empty());
        assert(spec_tokens(Seq::<char>::empty()) =~= Seq::<Seq<char>>::empty());
        assert(crate::views::coords_view(acc@) + Seq::<CoordV>::empty() =~= crate::views::coords_view(acc@));
    }
    Ok(acc)
}

} // verus!

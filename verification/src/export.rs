//! Deciding how spans are exported.
use tracing_subscriber::EnvFilter;
use vstd::prelude::*;
use vstd::string::*;
use vstd::utf8::*;

verus! {

/// Environment variable that filters what reaches the collector, independently
/// of `RUST_LOG`.
pub const ENV_OTEL_FILTER: &'static str = "CELLER_SERVER_OTEL_FILTER";

/// The instrumentation scope reported for spans that the server produces.
pub const INSTRUMENTATION_SCOPE: &'static str = "cellerd";

/// What reaches the collector when the environment does not say.
pub const DEFAULT_FILTER: &'static str = "info";

/// The protocol by which spans are exported.
#[derive(Debug, Clone, Copy, PartialEq, Eq, Structural)]
pub enum OtlpProtocol {
    /// OTLP over gRPC.
    Grpc,
    /// OTLP over HTTP, with binary bodies.
    Http,
}

/// How spans are exported over OTLP.
pub struct OtlpConfig {
    /// Whether spans are exported at all.
    pub enabled: bool,
    pub protocol: OtlpProtocol,
    /// The collector; left to the exporter's own environment variables if not
    /// given.
    pub endpoint: Option<String>,
    /// How long an export may take: whole seconds.
    pub timeout_secs: u64,
    /// How long an export may take: nanoseconds on top of the seconds.
    pub timeout_nanos: u32,
}

/// The configuration of tracing.
pub struct TracingConfig {
    /// The name under which the server reports spans.
    pub service_name: String,
    pub otlp: OtlpConfig,
}

/// An export pipeline that is to be started.
pub struct ExportPlan {
    pub protocol: OtlpProtocol,
    /// The collector, where the exporter is told one.
    pub endpoint: Option<String>,
    pub timeout_secs: u64,
    pub timeout_nanos: u32,
    pub service_name: String,
    pub scope: &'static str,
    /// The directives that select what is exported.
    pub filter: String,
}

/// The length of the white space character that begins at the given byte of a
/// text in UTF-8, and zero where none does.
pub open spec fn white_space_at(bytes: Seq<u8>, at: int) -> int {
    let first = bytes[at];
    if 0x09 <= first <= 0x0d || first == 0x20 {
        1
    } else if at + 1 < bytes.len() && first == 0xc2 && (bytes[at + 1] == 0x85 || bytes[at + 1]
        == 0xa0) {
        2
    } else if at + 2 < bytes.len() && {
        let second = bytes[at + 1];
        let third = bytes[at + 2];
        ||| first == 0xe1 && second == 0x9a && third == 0x80
        ||| first == 0xe2 && second == 0x80 && (0x80 <= third <= 0x8a || third == 0xa8 || third
            == 0xa9 || third == 0xaf)
        ||| first == 0xe2 && second == 0x81 && third == 0x9f
        ||| first == 0xe3 && second == 0x80 && third == 0x80
    } {
        3
    } else {
        0
    }
}

/// Where a directive begins that is written between two positions, once the
/// white space in front of it is passed over.
pub open spec fn directive_start(bytes: Seq<u8>, start: int, end: int) -> int
    decreases end - start,
{
    let width = if start < end {
        white_space_at(bytes, start)
    } else {
        0
    };
    if width == 0 || start + width > end {
        start
    } else {
        directive_start(bytes, start + width, end)
    }
}

/// What is being read of a directive.
#[derive(Debug, Clone, Copy, PartialEq, Eq, Structural)]
pub enum DirectivePart {
    /// Nothing yet.
    Start,
    /// A target, or a level alone.
    Name,
    /// The name of a span, in square brackets.
    Span,
    /// A field of a span, in curly brackets.
    Field,
    /// What follows a field.
    Fields,
    /// What follows a span.
    Target,
    /// A level, behind the equals sign.
    Level,
    /// A directive that has turned out not to be one.
    Malformed,
}

/// What is read of a directive once a byte of it was read.
pub open spec fn part_after(part: DirectivePart, byte: u8) -> DirectivePart {
    match part {
        DirectivePart::Start => if byte == '[' as u8 {
            DirectivePart::Span
        } else {
            DirectivePart::Name
        },
        DirectivePart::Name => if byte == '=' as u8 {
            DirectivePart::Level
        } else if byte == '[' as u8 {
            DirectivePart::Span
        } else {
            DirectivePart::Name
        },
        DirectivePart::Span => if byte == ']' as u8 {
            DirectivePart::Target
        } else if byte == '{' as u8 {
            DirectivePart::Field
        } else {
            DirectivePart::Span
        },
        DirectivePart::Field => if byte == '}' as u8 {
            DirectivePart::Fields
        } else {
            DirectivePart::Field
        },
        DirectivePart::Fields => if byte == ']' as u8 {
            DirectivePart::Target
        } else {
            DirectivePart::Malformed
        },
        DirectivePart::Target => if byte == '=' as u8 {
            DirectivePart::Level
        } else {
            DirectivePart::Malformed
        },
        DirectivePart::Level => DirectivePart::Level,
        DirectivePart::Malformed => DirectivePart::Malformed,
    }
}

/// Whether what is read of a directive is cut out of it when it is complete.
pub open spec fn is_cut_out(part: DirectivePart) -> bool {
    part is Name || part is Span || part is Field || part is Level
}

/// Whether a text can be cut at a position: no character that is written before
/// `end` extends over it.
pub open spec fn can_cut(bytes: Seq<u8>, at: int, end: int) -> bool {
    at >= end || !is_continuation_byte(bytes[at])
}

/// Where the next part of a directive begins, given where this part begins and
/// where the byte is cut that was read: behind a divider, but a name holds its
/// first byte.
pub open spec fn piece_after(part: DirectivePart, byte: u8, piece: int, cut: int) -> int {
    let next = part_after(part, byte);
    if next == part {
        piece
    } else if next is Name {
        cut
    } else {
        cut + 1
    }
}

/// Whether a directive that is read up to `at` can be taken apart from there on.
///
/// Positions are counted from behind the white space in front of the directive,
/// which is `shift` bytes long; but the directive is cut at these positions
/// counted from in front of the white space. `piece` is where the part that is
/// being read will be cut. A name or a level may also go up to the end.
pub open spec fn can_take_apart_from(
    bytes: Seq<u8>,
    at: int,
    end: int,
    shift: int,
    part: DirectivePart,
    piece: int,
) -> bool
    decreases end - at,
{
    if at >= end {
        part is Name || part is Level ==> can_cut(bytes, piece, end)
    } else {
        let byte = bytes[at];
        let next = part_after(part, byte);
        &&& is_cut_out(part) && next != part ==> can_cut(bytes, piece, end) && can_cut(
            bytes,
            at - shift,
            end,
        )
        &&& can_take_apart_from(
            bytes,
            at + 1,
            end,
            shift,
            next,
            piece_after(part, byte, piece, at - shift),
        )
    }
}

/// Whether the directive between two positions can be taken apart: each cut
/// falls between two characters.
pub open spec fn can_take_apart(bytes: Seq<u8>, start: int, end: int) -> bool {
    let first = directive_start(bytes, start, end);
    can_take_apart_from(bytes, first, end, first - start, DirectivePart::Start, start)
}

/// Whether a directive stands between two positions: between commas, or the
/// ends of the text.
pub open spec fn is_directive(bytes: Seq<u8>, start: int, end: int) -> bool {
    &&& 0 <= start <= end <= bytes.len()
    &&& start == 0 || bytes[start - 1] == ',' as u8
    &&& end == bytes.len() || bytes[end] == ',' as u8
    &&& forall|at: int| start <= at < end ==> #[trigger] bytes[at] != ',' as u8
}

/// Whether each of the directives in a text can be taken apart.
pub open spec fn can_parse(directives: Seq<char>) -> bool {
    let bytes = encode_utf8(directives);
    forall|start: int, end: int| #[trigger]
        is_directive(bytes, start, end) ==> can_take_apart(bytes, start, end)
}

/// The length of the white space character that begins at a byte.
fn white_space_len(bytes: &[u8], at: usize) -> (len: usize)
    requires
        at < bytes@.len(),
    ensures
        len == white_space_at(bytes@, at as int),
        len <= bytes@.len() - at,
{
    let first = bytes[at];
    let rest = bytes.len() - at;
    if (0x09 <= first && first <= 0x0d) || first == 0x20 {
        return 1;
    }
    if rest > 1 && first == 0xc2 && (bytes[at + 1] == 0x85 || bytes[at + 1] == 0xa0) {
        return 2;
    }
    if rest > 2 {
        let second = bytes[at + 1];
        let third = bytes[at + 2];
        if (first == 0xe1 && second == 0x9a && third == 0x80) || (first == 0xe2 && second == 0x80
            && ((0x80 <= third && third <= 0x8a) || third == 0xa8 || third == 0xa9 || third
            == 0xaf)) || (first == 0xe2 && second == 0x81 && third == 0x9f) || (first == 0xe3
            && second == 0x80 && third == 0x80) {
            return 3;
        }
    }
    0
}

/// Tells whether a text can be cut at a position.
fn test_cut(bytes: &[u8], at: usize, end: usize) -> (can: bool)
    requires
        end <= bytes@.len(),
    ensures
        can == can_cut(bytes@, at as int, end as int),
{
    at >= end || bytes[at] < 0x80 || bytes[at] > 0xbf
}

/// What is read of a directive once a byte of it was read.
fn read_part(part: DirectivePart, byte: u8) -> (next: DirectivePart)
    ensures
        next == part_after(part, byte),
{
    match part {
        DirectivePart::Start => if byte == '[' as u8 {
            DirectivePart::Span
        } else {
            DirectivePart::Name
        },
        DirectivePart::Name => if byte == '=' as u8 {
            DirectivePart::Level
        } else if byte == '[' as u8 {
            DirectivePart::Span
        } else {
            DirectivePart::Name
        },
        DirectivePart::Span => if byte == ']' as u8 {
            DirectivePart::Target
        } else if byte == '{' as u8 {
            DirectivePart::Field
        } else {
            DirectivePart::Span
        },
        DirectivePart::Field => if byte == '}' as u8 {
            DirectivePart::Fields
        } else {
            DirectivePart::Field
        },
        DirectivePart::Fields => if byte == ']' as u8 {
            DirectivePart::Target
        } else {
            DirectivePart::Malformed
        },
        DirectivePart::Target => if byte == '=' as u8 {
            DirectivePart::Level
        } else {
            DirectivePart::Malformed
        },
        DirectivePart::Level => DirectivePart::Level,
        DirectivePart::Malformed => DirectivePart::Malformed,
    }
}

/// Tells whether a part of a directive is cut out of it.
fn part_is_cut_out(part: DirectivePart) -> (cut_out: bool)
    ensures
        cut_out == is_cut_out(part),
{
    part == DirectivePart::Name || part == DirectivePart::Span || part == DirectivePart::Field
        || part == DirectivePart::Level
}

/// Tells whether the directive between two positions can be taken apart.
fn test_directive(bytes: &[u8], start: usize, end: usize) -> (can: bool)
    requires
        start <= end <= bytes@.len(),
    ensures
        can == can_take_apart(bytes@, start as int, end as int),
{
    let mut first: usize = start;
    let mut width: usize = if first < end {
        white_space_len(bytes, first)
    } else {
        0
    };
    while width > 0 && width <= end - first
        invariant
            start <= first <= end <= bytes@.len(),
            first < end ==> width == white_space_at(bytes@, first as int),
            first == end ==> width == 0,
            directive_start(bytes@, start as int, end as int) == directive_start(
                bytes@,
                first as int,
                end as int,
            ),
        decreases end - first,
    {
        first = first + width;
        width = if first < end {
            white_space_len(bytes, first)
        } else {
            0
        };
    }
    let shift = first - start;
    assert(directive_start(bytes@, start as int, end as int) == first);
    let mut at: usize = first;
    let mut part = DirectivePart::Start;
    let mut piece: usize = start;
    while at < end
        invariant
            start + shift == first,
            first <= at <= end <= bytes@.len(),
            piece <= at,
            can_take_apart(bytes@, start as int, end as int) == can_take_apart_from(
                bytes@,
                at as int,
                end as int,
                shift as int,
                part,
                piece as int,
            ),
        decreases end - at,
    {
        let next = read_part(part, bytes[at]);
        let cut = at - shift;
        if next != part {
            if part_is_cut_out(part) && !(test_cut(bytes, piece, end) && test_cut(bytes, cut, end)) {
                return false;
            }
            piece = if next == DirectivePart::Name {
                cut
            } else {
                cut + 1
            };
        }
        part = next;
        at = at + 1;
    }
    (part != DirectivePart::Name && part != DirectivePart::Level) || test_cut(bytes, piece, end)
}

/// Tells whether each of the directives in a text can be taken apart.
fn test_directives(directives: &str) -> (can: bool)
    ensures
        can == can_parse(directives@),
{
    let bytes = directives.as_bytes();
    let mut start: usize = 0;
    let mut at: usize = 0;
    while at < bytes.len()
        invariant
            bytes@ == encode_utf8(directives@),
            start <= at <= bytes@.len(),
            start == 0 || bytes@[start - 1] == ',' as u8,
            forall|i: int| start <= i < at ==> #[trigger] bytes@[i] != ',' as u8,
            forall|s: int, e: int| #[trigger]
                is_directive(bytes@, s, e) && s < start ==> can_take_apart(bytes@, s, e),
        decreases bytes.len() - at,
    {
        if bytes[at] == ',' as u8 {
            assert(is_directive(bytes@, start as int, at as int));
            if !test_directive(bytes, start, at) {
                return false;
            }
            assert forall|s: int, e: int| #[trigger]
                is_directive(bytes@, s, e) && s < at + 1 implies can_take_apart(bytes@, s, e) by {
                if s >= start {
                    assert(s == start) by {
                        if s > start {
                            assert(bytes@[s - 1] == ',' as u8);
                        }
                    }
                    assert(bytes@[at as int] == ',' as u8);
                    assert(e == at);
                }
            }
            start = at + 1;
        }
        at = at + 1;
    }
    assert(is_directive(bytes@, start as int, at as int));
    let can = test_directive(bytes, start, at);
    assert forall|s: int, e: int| #[trigger] is_directive(bytes@, s, e) && s >= start implies s
        == start && e == at by {
        if s > start {
            assert(bytes@[s - 1] == ',' as u8);
        }
    }
    can
}

/// Whether a text holds filter directives without an error among them.
pub uninterp spec fn filter_parses(directives: Seq<char>) -> bool;

/// `EnvFilter::try_new`, of which only the verdict is kept.
///
/// It panics where it cuts a directive inside a character, which it does only
/// where one cannot be taken apart; and where one cannot, it does nothing but
/// panic or report an error that comes earlier. Which directives are free of
/// errors is a matter of the directive syntax, and is not spelled out here.
#[verifier::external_body]
fn check_filter(directives: &str) -> (parses: bool)
    requires
        can_parse(directives@),
    ensures
        parses == filter_parses(directives@),
{
    EnvFilter::try_new(directives).is_ok()
}

/// The directives that are used, given those from the environment and whether
/// they are free of errors.
pub open spec fn chosen_filter(directives: Option<Seq<char>>, parses: bool) -> Seq<char> {
    match directives {
        Some(directives) => if parses {
            directives
        } else {
            DEFAULT_FILTER@
        },
        None => DEFAULT_FILTER@,
    }
}

/// Chooses between the directives from the environment and the default.
pub fn choose_filter(directives: Option<&str>, parses: bool) -> (filter: String)
    ensures
        filter@ == chosen_filter(
            match directives {
                Some(directives) => Some(directives@),
                None => None,
            },
            parses,
        ),
{
    match directives {
        Some(directives) => if parses {
            directives.to_owned()
        } else {
            DEFAULT_FILTER.to_owned()
        },
        None => DEFAULT_FILTER.to_owned(),
    }
}

/// What is exported, given the directives from the environment: those where
/// they can be parsed and are free of errors, the default otherwise.
pub open spec fn environment_filter(directives: Option<Seq<char>>) -> Seq<char> {
    match directives {
        Some(directives) => chosen_filter(
            Some(directives),
            can_parse(directives) && filter_parses(directives),
        ),
        None => DEFAULT_FILTER@,
    }
}

/// The directives that select what is exported, given those from the
/// environment.
pub fn export_filter(directives: Option<&str>) -> (filter: String)
    ensures
        filter@ == environment_filter(
            match directives {
                Some(directives) => Some(directives@),
                None => None,
            },
        ),
{
    let parses = match directives {
        Some(directives) => test_directives(directives) && check_filter(directives),
        None => false,
    };
    choose_filter(directives, parses)
}

/// Whether a plan does what the configuration says, with the given filter.
pub open spec fn is_plan_for(
    plan: Option<ExportPlan>,
    config: TracingConfig,
    filter: Seq<char>,
) -> bool {
    match plan {
        None => !config.otlp.enabled,
        Some(plan) => {
            &&& config.otlp.enabled
            &&& plan.protocol == config.otlp.protocol
            &&& match config.otlp.endpoint {
                Some(endpoint) => plan.endpoint is Some && plan.endpoint->0@ == endpoint@,
                None => plan.endpoint is None,
            }
            &&& plan.timeout_secs == config.otlp.timeout_secs
            &&& plan.timeout_nanos == config.otlp.timeout_nanos
            &&& plan.service_name@ == config.service_name@
            &&& plan.scope@ == INSTRUMENTATION_SCOPE@
            &&& plan.filter@ == filter
        },
    }
}

/// Plans the export of the spans that the filter selects, if export is
/// configured.
pub fn export_plan(config: &TracingConfig, filter: String) -> (plan: Option<ExportPlan>)
    ensures
        is_plan_for(plan, *config, filter@),
{
    if !config.otlp.enabled {
        return None;
    }
    let endpoint = match &config.otlp.endpoint {
        Some(endpoint) => Some(endpoint.clone()),
        None => None,
    };
    Some(
        ExportPlan {
            protocol: config.otlp.protocol,
            endpoint,
            timeout_secs: config.otlp.timeout_secs,
            timeout_nanos: config.otlp.timeout_nanos,
            service_name: config.service_name.clone(),
            scope: INSTRUMENTATION_SCOPE,
            filter,
        },
    )
}

/// Plans OTLP export, if it is configured, with the filter directives that the
/// environment gives.
pub fn init(config: &TracingConfig, directives: Option<&str>) -> (plan: Option<ExportPlan>)
    ensures
        is_plan_for(
            plan,
            *config,
            environment_filter(
                match directives {
                    Some(directives) => Some(directives@),
                    None => None,
                },
            ),
        ),
{
    if !config.otlp.enabled {
        return None;
    }
    export_plan(config, export_filter(directives))
}

/// A directive without a byte that continues a character can be taken apart.
proof fn lemma_ascii_is_taken_apart(
    bytes: Seq<u8>,
    at: int,
    end: int,
    shift: int,
    part: DirectivePart,
    piece: int,
)
    requires
        0 <= piece <= at,
        0 <= shift <= at,
        end <= bytes.len(),
        forall|i: int| 0 <= i < bytes.len() ==> #[trigger] bytes[i] < 0x80,
    ensures
        can_take_apart_from(bytes, at, end, shift, part, piece),
    decreases end - at,
{
    if at < end {
        let byte = bytes[at];
        lemma_ascii_is_taken_apart(
            bytes,
            at + 1,
            end,
            shift,
            part_after(part, byte),
            piece_after(part, byte, piece, at - shift),
        );
    }
}

/// White space takes a directive's start no further than its end.
proof fn lemma_directive_start(bytes: Seq<u8>, start: int, end: int)
    requires
        start <= end,
    ensures
        start <= directive_start(bytes, start, end) <= end,
    decreases end - start,
{
    if start < end {
        let width = white_space_at(bytes, start);
        if width > 0 && start + width <= end {
            lemma_directive_start(bytes, start + width, end);
        }
    }
}

/// Directives in ASCII can always be parsed: whether they are used depends on
/// errors among them alone.
pub proof fn law_ascii_directives_are_parsed(directives: Seq<char>)
    requires
        is_ascii_chars(directives),
    ensures
        can_parse(directives),
        environment_filter(Some(directives)) == chosen_filter(
            Some(directives),
            filter_parses(directives),
        ),
{
    let bytes = encode_utf8(directives);
    is_ascii_chars_encode_utf8(directives);
    assert forall|start: int, end: int| #[trigger]
        is_directive(bytes, start, end) implies can_take_apart(bytes, start, end) by {
        let first = directive_start(bytes, start, end);
        lemma_directive_start(bytes, start, end);
        lemma_ascii_is_taken_apart(bytes, first, end, first - start, DirectivePart::Start, start);
    }
}

/// No character extends over the position behind an ASCII character.
proof fn lemma_ascii_character_ends(bytes: Seq<u8>, at: int)
    requires
        valid_utf8(bytes),
        0 <= at < bytes.len() - 1,
        bytes[at] < 0x80,
    ensures
        !is_continuation_byte(bytes[at + 1]),
    decreases bytes.len(),
{
    let width = length_of_first_scalar(bytes);
    let rest = pop_first_scalar(bytes);
    assert(valid_utf8(rest));
    if at < width {
        assert(width == 1);
        assert(rest[0] == bytes[at + 1]);
    } else {
        lemma_ascii_character_ends(rest, at - width);
    }
}

/// A directive that is cut where it is divided can be taken apart.
proof fn lemma_unshifted_is_taken_apart(
    bytes: Seq<u8>,
    at: int,
    end: int,
    part: DirectivePart,
    piece: int,
)
    requires
        valid_utf8(bytes),
        0 <= at,
        end <= bytes.len(),
        can_cut(bytes, piece, end),
        part is Start ==> can_cut(bytes, at, end),
    ensures
        can_take_apart_from(bytes, at, end, 0, part, piece),
    decreases end - at,
{
    if at < end {
        let byte = bytes[at];
        let next = part_after(part, byte);
        if byte < 0x80 && at + 1 < end {
            lemma_ascii_character_ends(bytes, at);
        }
        if next is Malformed {
            lemma_malformed_is_taken_apart(
                bytes,
                at + 1,
                end,
                0,
                piece_after(part, byte, piece, at),
            );
        } else {
            lemma_unshifted_is_taken_apart(
                bytes,
                at + 1,
                end,
                next,
                piece_after(part, byte, piece, at),
            );
        }
    }
}

/// Nothing is cut out of a directive that has turned out not to be one.
proof fn lemma_malformed_is_taken_apart(
    bytes: Seq<u8>,
    at: int,
    end: int,
    shift: int,
    piece: int,
)
    ensures
        can_take_apart_from(bytes, at, end, shift, DirectivePart::Malformed, piece),
    decreases end - at,
{
    if at < end {
        lemma_malformed_is_taken_apart(bytes, at + 1, end, shift, piece);
    }
}

/// Directives without white space in front of them can always be parsed,
/// whatever characters they hold.
pub proof fn law_directives_without_indent_are_parsed(directives: Seq<char>)
    requires
        forall|start: int, end: int| #[trigger]
            is_directive(encode_utf8(directives), start, end) ==> directive_start(
                encode_utf8(directives),
                start,
                end,
            ) == start,
    ensures
        can_parse(directives),
        environment_filter(Some(directives)) == chosen_filter(
            Some(directives),
            filter_parses(directives),
        ),
{
    let bytes = encode_utf8(directives);
    encode_utf8_valid_utf8(directives);
    assert forall|start: int, end: int| #[trigger]
        is_directive(bytes, start, end) implies can_take_apart(bytes, start, end) by {
        if 0 < start < end {
            lemma_ascii_character_ends(bytes, start - 1);
        }
        lemma_unshifted_is_taken_apart(bytes, start, end, DirectivePart::Start, start);
    }
}

/// A plan is made if and only if export is enabled.
pub proof fn law_plan_is_made_when_enabled(
    plan: Option<ExportPlan>,
    config: TracingConfig,
    filter: Seq<char>,
)
    requires
        is_plan_for(plan, config, filter),
    ensures
        plan is Some <==> config.otlp.enabled,
{
}

/// Under either protocol, a plan names a collector exactly when the configuration
/// does, and the same one; and it takes all else from the configuration too.
pub proof fn law_plan_follows_the_configuration(
    plan: ExportPlan,
    config: TracingConfig,
    filter: Seq<char>,
)
    requires
        is_plan_for(Some(plan), config, filter),
    ensures
        plan.endpoint is Some <==> config.otlp.endpoint is Some,
        config.otlp.endpoint is Some ==> plan.endpoint->0@ == config.otlp.endpoint->0@,
        plan.protocol == config.otlp.protocol,
        plan.timeout_secs == config.otlp.timeout_secs,
        plan.timeout_nanos == config.otlp.timeout_nanos,
        plan.service_name@ == config.service_name@,
        plan.scope@ == seq!['c', 'e', 'l', 'l', 'e', 'r', 'd'],
        plan.filter@ == filter,
{
    reveal_strlit("cellerd");
    assert("cellerd"@ =~= seq!['c', 'e', 'l', 'l', 'e', 'r', 'd']);
}

/// The directives from the environment are used to the letter wherever they can
/// be parsed and are free of errors; `info` is used in all other cases.
pub proof fn law_filter_is_the_environments_or_info(directives: Seq<char>)
    ensures
        can_parse(directives) && filter_parses(directives) ==> environment_filter(Some(directives))
            == directives,
        !filter_parses(directives) || !can_parse(directives) ==> environment_filter(Some(directives))
            == seq!['i', 'n', 'f', 'o'],
        environment_filter(None) == seq!['i', 'n', 'f', 'o'],
        chosen_filter(Some(directives), true) == directives,
        chosen_filter(Some(directives), false) == seq!['i', 'n', 'f', 'o'],
        forall|parses: bool| #[trigger] chosen_filter(None, parses) == seq!['i', 'n', 'f', 'o'],
{
    reveal_strlit("info");
    assert("info"@ =~= seq!['i', 'n', 'f', 'o']);
}

/// A text cannot be cut in front of a byte that continues a character, and can be
/// cut anywhere else.
pub proof fn law_cuts_do_not_hit_characters(bytes: Seq<u8>, at: int, end: int)
    ensures
        can_cut(bytes, at, end) <==> at >= end || !(0x80 <= bytes[at] <= 0xbf),
{
}

/// The code of a character of two bytes decides whether it is white space.
proof fn lemma_white_space_width_2(a: u8, b: u8)
    requires
        0xc0 <= a <= 0xdf,
        0x80 <= b <= 0xbf,
    ensures
        ({
            let code = codepoint_width_2(a, b);
            (code == 0x85 || code == 0xa0) == (a == 0xc2 && (b == 0x85 || b == 0xa0))
        }),
        codepoint_width_2(a, b) <= 0x7ff,
{
    let code = (((a & 0x1f) as u32) << 6) | ((b & 0x3f) as u32);
    assert((code == 0x85 || code == 0xa0) == (a == 0xc2 && (b == 0x85 || b == 0xa0)) && code
        <= 0x7ff) by (bit_vector)
        requires
            code == (((a & 0x1f) as u32) << 6) | ((b & 0x3f) as u32),
            0xc0 <= a <= 0xdf,
            0x80 <= b <= 0xbf,
    ;
}

/// The code of a character of three bytes decides whether it is white space.
proof fn lemma_white_space_width_3(a: u8, b: u8, c: u8)
    requires
        0xe0 <= a <= 0xef,
        0x80 <= b <= 0xbf,
        0x80 <= c <= 0xbf,
    ensures
        ({
            let code = codepoint_width_3(a, b, c);
            (code == 0x1680 || 0x2000 <= code <= 0x200a || code == 0x2028 || code == 0x2029 || code
                == 0x202f || code == 0x205f || code == 0x3000) == {
                ||| a == 0xe1 && b == 0x9a && c == 0x80
                ||| a == 0xe2 && b == 0x80 && (0x80 <= c <= 0x8a || c == 0xa8 || c == 0xa9 || c
                    == 0xaf)
                ||| a == 0xe2 && b == 0x81 && c == 0x9f
                ||| a == 0xe3 && b == 0x80 && c == 0x80
            }
        }),
{
    let code = (((a & 0x0f) as u32) << 12) | (((b & 0x3f) as u32) << 6) | ((c & 0x3f) as u32);
    assert((code == 0x1680 || (0x2000 <= code && code <= 0x200a) || code == 0x2028 || code == 0x2029
        || code == 0x202f || code == 0x205f || code == 0x3000) == ((a == 0xe1 && b == 0x9a && c
        == 0x80) || (a == 0xe2 && b == 0x80 && ((0x80 <= c && c <= 0x8a) || c == 0xa8 || c == 0xa9
        || c == 0xaf)) || (a == 0xe2 && b == 0x81 && c == 0x9f) || (a == 0xe3 && b == 0x80 && c
        == 0x80))) by (bit_vector)
        requires
            code == (((a & 0x0f) as u32) << 12) | (((b & 0x3f) as u32) << 6) | ((c & 0x3f) as u32),
            0xe0 <= a <= 0xef,
            0x80 <= b <= 0xbf,
            0x80 <= c <= 0xbf,
    ;
}

/// White space is what Unicode lists as such, by the code of the character that
/// begins at a byte; its length is the length of that character.
pub proof fn law_white_space_is_that_of_unicode(bytes: Seq<u8>, at: int)
    requires
        0 <= at < bytes.len(),
        valid_first_scalar(bytes.skip(at)),
    ensures
        ({
            let code = decode_first_scalar(bytes.skip(at));
            let listed = 0x09 <= code <= 0x0d || code == 0x20 || code == 0x85 || code == 0xa0 || code
                == 0x1680 || 0x2000 <= code <= 0x200a || code == 0x2028 || code == 0x2029 || code
                == 0x202f || code == 0x205f || code == 0x3000;
            white_space_at(bytes, at) == if listed {
                length_of_first_scalar(bytes.skip(at))
            } else {
                0
            }
        }),
{
    let rest = bytes.skip(at);
    let a = rest[0];
    assert(a == bytes[at]);
    if is_leading_byte_width_1(a) {
        assert((a & 0x7f) as u32 == a as u32) by (bit_vector)
            requires
                a <= 0x7f,
        ;
    } else if is_leading_byte_width_2(a) {
        assert(rest[1] == bytes[at + 1]);
        lemma_white_space_width_2(a, rest[1]);
    } else if is_leading_byte_width_3(a) {
        assert(rest[1] == bytes[at + 1] && rest[2] == bytes[at + 2]);
        lemma_white_space_width_3(a, rest[1], rest[2]);
    }
}

/// White space in front of a directive is passed over, character by character,
/// and nothing else is.
pub proof fn law_only_white_space_is_passed_over(bytes: Seq<u8>, start: int, end: int)
    requires
        0 <= start <= end <= bytes.len(),
    ensures
        start < end && white_space_at(bytes, start) > 0 && start + white_space_at(bytes, start)
            <= end ==> directive_start(bytes, start, end) == directive_start(
            bytes,
            start + white_space_at(bytes, start),
            end,
        ),
        start == end || white_space_at(bytes, start) == 0 ==> directive_start(bytes, start, end)
            == start,
{
}

/// What keeps a part going can be passed over.
proof fn lemma_part_goes_on(
    bytes: Seq<u8>,
    at: int,
    to: int,
    end: int,
    shift: int,
    part: DirectivePart,
    piece: int,
)
    requires
        at <= to <= end,
        forall|i: int| at <= i < to ==> part_after(part, #[trigger] bytes[i]) == part,
    ensures
        can_take_apart_from(bytes, at, end, shift, part, piece) == can_take_apart_from(
            bytes,
            to,
            end,
            shift,
            part,
            piece,
        ),
    decreases to - at,
{
    if at < to {
        assert(part_after(part, bytes[at]) == part);
        lemma_part_goes_on(bytes, at + 1, to, end, shift, part, piece);
    }
}

/// A level goes up to the end, so it is cut at its start alone.
proof fn lemma_level_is_cut_at_its_start(
    bytes: Seq<u8>,
    at: int,
    end: int,
    shift: int,
    piece: int,
)
    requires
        at <= end,
    ensures
        can_take_apart_from(bytes, at, end, shift, DirectivePart::Level, piece) == can_cut(
            bytes,
            piece,
            end,
        ),
{
    lemma_part_goes_on(bytes, at, end, end, shift, DirectivePart::Level, piece);
}

/// Behind a span, only the start of a level is still cut.
proof fn lemma_behind_a_span(bytes: Seq<u8>, at: int, end: int, shift: int, piece: int)
    requires
        at <= end,
    ensures
        can_take_apart_from(bytes, at, end, shift, DirectivePart::Target, piece) == (at < end
            && bytes[at] == '=' as u8 ==> can_cut(bytes, at - shift + 1, end)),
{
    if at < end {
        if bytes[at] == '=' as u8 {
            lemma_level_is_cut_at_its_start(bytes, at + 1, end, shift, at - shift + 1);
        } else {
            lemma_malformed_is_taken_apart(bytes, at + 1, end, shift, at - shift + 1);
        }
    }
}

/// A directive without a divider behind its first character is a name, and is
/// taken as it stands.
pub proof fn law_plain_directive_is_cut_at_its_start(bytes: Seq<u8>, start: int, end: int)
    requires
        0 <= start <= end <= bytes.len(),
        ({
            let first = directive_start(bytes, start, end);
            &&& first < end ==> bytes[first] != '[' as u8
            &&& forall|i: int|
                first < i < end ==> #[trigger] bytes[i] != '=' as u8 && bytes[i] != '[' as u8
        }),
    ensures
        can_take_apart(bytes, start, end) <==> directive_start(bytes, start, end) == end || can_cut(
            bytes,
            start,
            end,
        ),
{
    let first = directive_start(bytes, start, end);
    lemma_directive_start(bytes, start, end);
    if first < end {
        lemma_part_goes_on(
            bytes,
            first + 1,
            end,
            end,
            first - start,
            DirectivePart::Name,
            start,
        );
    }
}

/// A directive that is a target and a level is cut at the equals sign and behind
/// it, counted back by the white space in front of the directive, and nowhere
/// else but at its start.
pub proof fn law_level_is_cut_at_the_equals_sign(bytes: Seq<u8>, start: int, end: int, at: int)
    requires
        0 <= start <= end <= bytes.len(),
        ({
            let first = directive_start(bytes, start, end);
            &&& first < at < end
            &&& bytes[first] != '[' as u8
            &&& bytes[at] == '=' as u8
            &&& forall|i: int|
                first < i < at ==> #[trigger] bytes[i] != '=' as u8 && bytes[i] != '[' as u8
        }),
    ensures
        ({
            let shift = directive_start(bytes, start, end) - start;
            can_take_apart(bytes, start, end) <==> can_cut(bytes, start, end) && can_cut(
                bytes,
                at - shift,
                end,
            ) && can_cut(bytes, at - shift + 1, end)
        }),
{
    let first = directive_start(bytes, start, end);
    let shift = first - start;
    lemma_part_goes_on(bytes, first + 1, at, end, shift, DirectivePart::Name, start);
    lemma_level_is_cut_at_its_start(bytes, at + 1, end, shift, at - shift + 1);
}

/// Up to a span, only the name in front of it is cut, if there is one.
proof fn lemma_up_to_a_span(bytes: Seq<u8>, start: int, end: int, open: int)
    requires
        0 <= start <= end <= bytes.len(),
        ({
            let first = directive_start(bytes, start, end);
            &&& first <= open < end
            &&& bytes[open] == '[' as u8
            &&& first < open ==> bytes[first] != '[' as u8
            &&& forall|i: int|
                first < i < open ==> #[trigger] bytes[i] != '=' as u8 && bytes[i] != '[' as u8
        }),
    ensures
        ({
            let first = directive_start(bytes, start, end);
            let shift = first - start;
            can_take_apart(bytes, start, end) == ((open == first || can_cut(bytes, start, end)
                && can_cut(bytes, open - shift, end)) && can_take_apart_from(
                bytes,
                open + 1,
                end,
                shift,
                DirectivePart::Span,
                open - shift + 1,
            ))
        }),
{
    let first = directive_start(bytes, start, end);
    if first < open {
        lemma_part_goes_on(
            bytes,
            first + 1,
            open,
            end,
            first - start,
            DirectivePart::Name,
            start,
        );
    }
}

/// A directive with the name of a span in square brackets is cut behind the
/// opening and at the closing bracket, and behind an equals sign that follows:
/// whatever other characters the name of the span holds. A name in front of the
/// bracket is cut too.
pub proof fn law_span_is_cut_at_its_brackets(
    bytes: Seq<u8>,
    start: int,
    end: int,
    open: int,
    close: int,
)
    requires
        0 <= start <= end <= bytes.len(),
        ({
            let first = directive_start(bytes, start, end);
            &&& first <= open < close < end
            &&& bytes[open] == '[' as u8
            &&& bytes[close] == ']' as u8
            &&& first < open ==> bytes[first] != '[' as u8
            &&& forall|i: int|
                first < i < open ==> #[trigger] bytes[i] != '=' as u8 && bytes[i] != '[' as u8
            &&& forall|i: int|
                open < i < close ==> #[trigger] bytes[i] != ']' as u8 && bytes[i] != '{' as u8
        }),
    ensures
        ({
            let first = directive_start(bytes, start, end);
            let shift = first - start;
            can_take_apart(bytes, start, end) <==> {
                &&& open == first || can_cut(bytes, start, end) && can_cut(bytes, open - shift, end)
                &&& can_cut(bytes, open - shift + 1, end) && can_cut(bytes, close - shift, end)
                &&& close + 1 < end && bytes[close + 1] == '=' as u8 ==> can_cut(
                    bytes,
                    close - shift + 2,
                    end,
                )
            }
        }),
{
    let shift = directive_start(bytes, start, end) - start;
    lemma_up_to_a_span(bytes, start, end, open);
    lemma_part_goes_on(
        bytes,
        open + 1,
        close,
        end,
        shift,
        DirectivePart::Span,
        open - shift + 1,
    );
    lemma_behind_a_span(bytes, close + 1, end, shift, close - shift + 1);
}

/// A directive with a field of a span in curly brackets is cut around the name of
/// the span and around the field, and behind an equals sign that follows the
/// closing brackets: whatever other characters the field holds.
pub proof fn law_field_is_cut_at_its_brackets(
    bytes: Seq<u8>,
    start: int,
    end: int,
    open: int,
    field: int,
    close: int,
)
    requires
        0 <= start <= end <= bytes.len(),
        ({
            let first = directive_start(bytes, start, end);
            &&& first <= open < field < close < end
            &&& bytes[open] == '[' as u8
            &&& bytes[field] == '{' as u8
            &&& bytes[close] == '}' as u8
            &&& first < open ==> bytes[first] != '[' as u8
            &&& forall|i: int|
                first < i < open ==> #[trigger] bytes[i] != '=' as u8 && bytes[i] != '[' as u8
            &&& forall|i: int|
                open < i < field ==> #[trigger] bytes[i] != ']' as u8 && bytes[i] != '{' as u8
            &&& forall|i: int| field < i < close ==> #[trigger] bytes[i] != '}' as u8
        }),
    ensures
        ({
            let first = directive_start(bytes, start, end);
            let shift = first - start;
            can_take_apart(bytes, start, end) <==> {
                &&& open == first || can_cut(bytes, start, end) && can_cut(bytes, open - shift, end)
                &&& can_cut(bytes, open - shift + 1, end) && can_cut(bytes, field - shift, end)
                &&& can_cut(bytes, field - shift + 1, end) && can_cut(bytes, close - shift, end)
                &&& close + 2 < end && bytes[close + 1] == ']' as u8 && bytes[close + 2]
                    == '=' as u8 ==> can_cut(bytes, close - shift + 3, end)
            }
        }),
{
    let shift = directive_start(bytes, start, end) - start;
    lemma_up_to_a_span(bytes, start, end, open);
    lemma_part_goes_on(
        bytes,
        open + 1,
        field,
        end,
        shift,
        DirectivePart::Span,
        open - shift + 1,
    );
    lemma_part_goes_on(
        bytes,
        field + 1,
        close,
        end,
        shift,
        DirectivePart::Field,
        field - shift + 1,
    );
    assert(can_take_apart_from(
        bytes,
        field,
        end,
        shift,
        DirectivePart::Span,
        open - shift + 1,
    ) == (can_cut(bytes, open - shift + 1, end) && can_cut(bytes, field - shift, end)
        && can_take_apart_from(
        bytes,
        field + 1,
        end,
        shift,
        DirectivePart::Field,
        field - shift + 1,
    )));
    assert(can_take_apart_from(
        bytes,
        close,
        end,
        shift,
        DirectivePart::Field,
        field - shift + 1,
    ) == (can_cut(bytes, field - shift + 1, end) && can_cut(bytes, close - shift, end)
        && can_take_apart_from(
        bytes,
        close + 1,
        end,
        shift,
        DirectivePart::Fields,
        close - shift + 1,
    )));
    if close + 1 < end {
        if bytes[close + 1] == ']' as u8 {
            lemma_behind_a_span(bytes, close + 2, end, shift, close - shift + 2);
        } else {
            lemma_malformed_is_taken_apart(bytes, close + 2, end, shift, close - shift + 2);
        }
        assert(can_take_apart_from(
            bytes,
            close + 1,
            end,
            shift,
            DirectivePart::Fields,
            close - shift + 1,
        ) == (bytes[close + 1] == ']' as u8 ==> can_take_apart_from(
            bytes,
            close + 2,
            end,
            shift,
            DirectivePart::Target,
            close - shift + 2,
        )));
    }
}

/// A directive whose brackets are not closed is cut only up to where it breaks
/// off.
pub proof fn law_unclosed_span_is_cut_in_front(
    bytes: Seq<u8>,
    start: int,
    end: int,
    open: int,
    field: int,
)
    requires
        0 <= start <= end <= bytes.len(),
        ({
            let first = directive_start(bytes, start, end);
            &&& first <= open < field <= end
            &&& bytes[open] == '[' as u8
            &&& first < open ==> bytes[first] != '[' as u8
            &&& forall|i: int|
                first < i < open ==> #[trigger] bytes[i] != '=' as u8 && bytes[i] != '[' as u8
            &&& forall|i: int|
                open < i < field ==> #[trigger] bytes[i] != ']' as u8 && bytes[i] != '{' as u8
            &&& field < end ==> bytes[field] == '{' as u8
            &&& forall|i: int| field < i < end ==> #[trigger] bytes[i] != '}' as u8
        }),
    ensures
        ({
            let first = directive_start(bytes, start, end);
            let shift = first - start;
            can_take_apart(bytes, start, end) <==> {
                &&& open == first || can_cut(bytes, start, end) && can_cut(bytes, open - shift, end)
                &&& field < end ==> can_cut(bytes, open - shift + 1, end) && can_cut(
                    bytes,
                    field - shift,
                    end,
                )
            }
        }),
{
    let shift = directive_start(bytes, start, end) - start;
    lemma_up_to_a_span(bytes, start, end, open);
    lemma_part_goes_on(
        bytes,
        open + 1,
        field,
        end,
        shift,
        DirectivePart::Span,
        open - shift + 1,
    );
    if field < end {
        lemma_part_goes_on(
            bytes,
            field + 1,
            end,
            end,
            shift,
            DirectivePart::Field,
            field - shift + 1,
        );
    }
}

/// A text can be parsed if and only if each of its pieces between commas, and no
/// other, can be taken apart.
pub proof fn law_text_is_parsed_comma_by_comma(directives: Seq<char>)
    ensures
        can_parse(directives) <==> (forall|start: int, end: int|
            #![trigger can_take_apart(encode_utf8(directives), start, end)]
            0 <= start <= end <= encode_utf8(directives).len() && (start == 0 || encode_utf8(
                directives,
            )[start - 1] == 0x2c) && (end == encode_utf8(directives).len() || encode_utf8(
                directives,
            )[end] == 0x2c) && (forall|i: int|
                start <= i < end ==> #[trigger] encode_utf8(directives)[i] != 0x2c)
                ==> can_take_apart(encode_utf8(directives), start, end)),
{
    let bytes = encode_utf8(directives);
    assert forall|start: int, end: int|
        #![trigger can_take_apart(bytes, start, end)]
        is_directive(bytes, start, end) == {
            &&& 0 <= start <= end <= bytes.len()
            &&& start == 0 || bytes[start - 1] == 0x2c
            &&& end == bytes.len() || bytes[end] == 0x2c
            &&& forall|i: int| start <= i < end ==> #[trigger] bytes[i] != 0x2c
        } by {}
    assert forall|start: int, end: int| #[trigger]
        is_directive(bytes, start, end) == {
            &&& 0 <= start <= end <= bytes.len()
            &&& start == 0 || bytes[start - 1] == 0x2c
            &&& end == bytes.len() || bytes[end] == 0x2c
            &&& forall|i: int| start <= i < end ==> #[trigger] bytes[i] != 0x2c
        } by {}
}

/// `export_plan` and `init`: whenever export is enabled there is a plan, which
/// names the collector of the configuration under either protocol and takes all
/// else from the configuration too.
pub proof fn law_export_goes_by_the_configuration(
    config: &TracingConfig,
    filter: String,
    directives: Option<&str>,
    plan: Option<ExportPlan>,
)
    requires
        call_ensures(export_plan, (config, filter), plan) || call_ensures(
            init,
            (config, directives),
            plan,
        ),
    ensures
        plan is Some <==> config.otlp.enabled,
        plan is Some ==> {
            &&& plan->0.protocol == config.otlp.protocol
            &&& plan->0.endpoint is Some <==> config.otlp.endpoint is Some
            &&& config.otlp.endpoint is Some ==> plan->0.endpoint->0@ == config.otlp.endpoint->0@
            &&& plan->0.timeout_secs == config.otlp.timeout_secs
            &&& plan->0.timeout_nanos == config.otlp.timeout_nanos
            &&& plan->0.service_name@ == config.service_name@
            &&& plan->0.scope@ == seq!['c', 'e', 'l', 'l', 'e', 'r', 'd']
        },
{
    reveal_strlit("cellerd");
    assert("cellerd"@ =~= seq!['c', 'e', 'l', 'l', 'e', 'r', 'd']);
}

/// `export_filter` and `init` use the directives from the environment to the
/// letter where they can be parsed and are free of errors, and `info` otherwise;
/// `export_plan` uses what it is given.
pub proof fn law_filter_comes_from_the_environment(
    config: &TracingConfig,
    directives: Option<&str>,
    filter: String,
    plan: Option<ExportPlan>,
    given: String,
    planned: Option<ExportPlan>,
)
    requires
        call_ensures(export_filter, (directives,), filter),
        call_ensures(init, (config, directives), plan),
        call_ensures(export_plan, (config, given), planned),
    ensures
        directives is Some && can_parse(directives->0@) && filter_parses(directives->0@)
            ==> filter@ == directives->0@,
        directives is None || !can_parse(directives->0@) || !filter_parses(directives->0@)
            ==> filter@ == seq!['i', 'n', 'f', 'o'],
        plan is Some ==> plan->0.filter@ == filter@,
        planned is Some ==> planned->0.filter@ == given@,
{
    reveal_strlit("info");
    assert("info"@ =~= seq!['i', 'n', 'f', 'o']);
}

/// `choose_filter` chooses the directives where they are given and parse, and
/// `info` otherwise.
pub proof fn law_filter_is_chosen(directives: Option<&str>, parses: bool, filter: String)
    requires
        call_ensures(choose_filter, (directives, parses), filter),
    ensures
        directives is Some && parses ==> filter@ == directives->0@,
        directives is None || !parses ==> filter@ == seq!['i', 'n', 'f', 'o'],
{
    reveal_strlit("info");
    assert("info"@ =~= seq!['i', 'n', 'f', 'o']);
}

} // verus!

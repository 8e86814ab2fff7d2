//! Rendering of the operator-supplied command templates.
//!
//! A receiver or filter command is a mustache template over a fixed set of
//! string fields. The library does not restate the template grammar: the
//! rendered text is named by `render_of`, a pure function of the template
//! and the fields alone. That purity only holds for templates kept to
//! interpolation, so a template is admitted exactly when every `{{` opens
//! one of the three interpolation forms — escaped `{{name}}`, unescaped
//! `{{&name}}`, unescaped `{{{name}}}` — whose body holds nothing but
//! letters, digits, underscores and spaces. Everything else — sections,
//! partials (which read template files from disk), comments, delimiter
//! changes, the implicit `.` tag — has no reading here.

use vstd::prelude::*;
use vstd::assert_by_contradiction;

verus! {

/// The characters a tag body may hold: enough for a field name, and none
/// of the sigils that turn a tag into a section, partial, comment or
/// delimiter change.
pub open spec fn safe_tag_char(c: char) -> bool {
    ||| ('a' <= c && c <= 'z')
    ||| ('A' <= c && c <= 'Z')
    ||| ('0' <= c && c <= '9')
    ||| c == '_'
    ||| c == ' '
}

/// A tag opens at `i`.
pub open spec fn tag_open_at(t: Seq<char>, i: int) -> bool {
    0 <= i && i + 1 < t.len() && t[i] == '{' && t[i + 1] == '{'
}

/// A tag closes with `}}` at `j`.
pub open spec fn tag_close_at(t: Seq<char>, j: int) -> bool {
    0 <= j && j + 1 < t.len() && t[j] == '}' && t[j + 1] == '}'
}

/// A tag closes with `}}}` at `j`.
pub open spec fn triple_close_at(t: Seq<char>, j: int) -> bool {
    0 <= j && j + 2 < t.len() && t[j] == '}' && t[j + 1] == '}' && t[j + 2] == '}'
}

/// A tag body starting at `from` runs in safe characters up to a `}}`.
pub open spec fn tag_closes_from(t: Seq<char>, from: int) -> bool {
    exists|j: int|
        from <= j && #[trigger] tag_close_at(t, j) && (forall|k: int|
            from <= k < j ==> safe_tag_char(#[trigger] t[k]))
}

/// A tag body starting at `from` runs in safe characters up to a `}}}`.
pub open spec fn triple_closes_from(t: Seq<char>, from: int) -> bool {
    exists|j: int|
        from <= j && #[trigger] triple_close_at(t, j) && (forall|k: int|
            from <= k < j ==> safe_tag_char(#[trigger] t[k]))
}

/// The tag opening at `i` is one of the three interpolation forms:
/// `{{name}}`, `{{&name}}` or `{{{name}}}`.
pub open spec fn tag_shape_at(t: Seq<char>, i: int) -> bool {
    ||| tag_closes_from(t, i + 2)
    ||| (i + 2 < t.len() && t[i + 2] == '&' && tag_closes_from(t, i + 3))
    ||| (i + 2 < t.len() && t[i + 2] == '{' && triple_closes_from(t, i + 3))
}

/// A template this library renders: every `{{` opens an interpolation
/// tag of one of the three admitted forms.
pub open spec fn template_safe(t: Seq<char>) -> bool {
    forall|i: int| #[trigger] tag_open_at(t, i) ==> tag_shape_at(t, i)
}

/// What rendering a template over the given fields yields: the rendered
/// text, or nothing when the template does not compile.
pub uninterp spec fn render_of(template: Seq<char>, fields: Seq<(Seq<char>, Seq<char>)>) -> Option<
    Seq<char>,
>;

/// The character sequences of a list of field pairs.
pub open spec fn fields_view(fields: Seq<(String, String)>) -> Seq<(Seq<char>, Seq<char>)> {
    fields.map_values(|p: (String, String)| (p.0@, p.1@))
}

/// Relies on mustache::compile_str and Template::render_data_to_string,
/// with the fields inserted as strings through MapBuilder::insert_str.
/// The `requires` admits only interpolation templates: every tag then
/// parses as an escaped or unescaped interpolation of a name other than
/// `.` (or fails to compile as a blank tag), so no partial is declared
/// and nothing is read from disk, no section, comment or delimiter change
/// exists, every looked-up value is a string or absent, and no panicking
/// arm of the renderer is reachable. The outcome is a function of the
/// template text and the field map alone.
#[verifier::external_body]
fn render_mustache(template: &str, fields: &Vec<(String, String)>) -> (r: Option<String>)
    requires
        template_safe(template@),
    ensures
        match r {
            Some(s) => render_of(template@, fields_view(fields@)) == Some(s@),
            None => render_of(template@, fields_view(fields@)) is None,
        },
{
    let t = match mustache::compile_str(template) {
        Ok(t) => t,
        Err(_) => return None,
    };
    let mut builder = mustache::MapBuilder::new();
    for (key, value) in fields.iter() {
        builder = builder.insert_str(key, value);
    }
    t.render_data_to_string(&builder.build()).ok()
}

/// Scans a tag body for its `}}` close: the first one at or after `from`,
/// provided everything before it is a safe tag character.
fn find_tag_close(template: &str, from: usize) -> (r: Option<usize>)
    requires
        from <= template@.len(),
    ensures
        match r {
            Some(j) => {
                &&& from <= j
                &&& tag_close_at(template@, j as int)
                &&& forall|m: int| from <= m < j ==> safe_tag_char(#[trigger] template@[m])
                &&& tag_closes_from(template@, from as int)
            },
            None => !tag_closes_from(template@, from as int),
        },
{
    let ghost t = template@;
    let n = template.unicode_len();
    let mut k: usize = from;
    while k < n
        invariant
            n == t.len(),
            t == template@,
            from <= k <= n,
            forall|m: int| from <= m < k ==> safe_tag_char(#[trigger] t[m]),
        decreases n - k,
    {
        let c = template.get_char(k);
        if c == '}' {
            if k + 1 < n && template.get_char(k + 1) == '}' {
                proof {
                    assert(tag_close_at(t, k as int));
                }
                return Some(k);
            }
            // a lone closing brace inside the tag body
            proof {
                assert_by_contradiction!(!tag_closes_from(t, from as int), {
                    let j = choose|j: int|
                        from <= j && #[trigger] tag_close_at(t, j) && (forall|m: int|
                            from <= m < j ==> safe_tag_char(#[trigger] t[m]));
                    if j < k {
                        assert(safe_tag_char(t[j]));
                    } else if j > k {
                        assert(safe_tag_char(t[k as int]));
                    }
                });
            }
            return None;
        }
        let ok = ('a' <= c && c <= 'z') || ('A' <= c && c <= 'Z') || ('0' <= c && c <= '9') || c
            == '_' || c == ' ';
        if !ok {
            proof {
                assert(!safe_tag_char(t[k as int]));
                assert_by_contradiction!(!tag_closes_from(t, from as int), {
                    let j = choose|j: int|
                        from <= j && #[trigger] tag_close_at(t, j) && (forall|m: int|
                            from <= m < j ==> safe_tag_char(#[trigger] t[m]));
                    if j < k {
                        assert(safe_tag_char(t[j]));
                    } else if j == k {
                        assert(t[k as int] == '}');
                    } else {
                        assert(safe_tag_char(t[k as int]));
                    }
                });
            }
            return None;
        }
        k += 1;
    }
    // ran out of text with the tag still open
    proof {
        assert_by_contradiction!(!tag_closes_from(t, from as int), {
            let j = choose|j: int|
                from <= j && #[trigger] tag_close_at(t, j) && (forall|m: int|
                    from <= m < j ==> safe_tag_char(#[trigger] t[m]));
            assert(safe_tag_char(t[j]));
        });
    }
    None
}

/// Scans a tag body for its `}}}` close: the first one at or after
/// `from`, provided everything before it is a safe tag character.
fn find_triple_close(template: &str, from: usize) -> (r: Option<usize>)
    requires
        from <= template@.len(),
    ensures
        match r {
            Some(j) => {
                &&& from <= j
                &&& triple_close_at(template@, j as int)
                &&& forall|m: int| from <= m < j ==> safe_tag_char(#[trigger] template@[m])
                &&& triple_closes_from(template@, from as int)
            },
            None => !triple_closes_from(template@, from as int),
        },
{
    let ghost t = template@;
    let n = template.unicode_len();
    let mut k: usize = from;
    while k < n
        invariant
            n == t.len(),
            t == template@,
            from <= k <= n,
            forall|m: int| from <= m < k ==> safe_tag_char(#[trigger] t[m]),
        decreases n - k,
    {
        let c = template.get_char(k);
        if c == '}' {
            if n - k > 2 && template.get_char(k + 1) == '}' && template.get_char(k + 2) == '}' {
                proof {
                    assert(triple_close_at(t, k as int));
                }
                return Some(k);
            }
            // a closing brace without two more behind it
            proof {
                assert_by_contradiction!(!triple_closes_from(t, from as int), {
                    let j = choose|j: int|
                        from <= j && #[trigger] triple_close_at(t, j) && (forall|m: int|
                            from <= m < j ==> safe_tag_char(#[trigger] t[m]));
                    if j < k {
                        assert(safe_tag_char(t[j]));
                    } else if j > k {
                        assert(safe_tag_char(t[k as int]));
                    }
                });
            }
            return None;
        }
        let ok = ('a' <= c && c <= 'z') || ('A' <= c && c <= 'Z') || ('0' <= c && c <= '9') || c
            == '_' || c == ' ';
        if !ok {
            proof {
                assert(!safe_tag_char(t[k as int]));
                assert_by_contradiction!(!triple_closes_from(t, from as int), {
                    let j = choose|j: int|
                        from <= j && #[trigger] triple_close_at(t, j) && (forall|m: int|
                            from <= m < j ==> safe_tag_char(#[trigger] t[m]));
                    if j < k {
                        assert(safe_tag_char(t[j]));
                    } else if j == k {
                        assert(t[k as int] == '}');
                    } else {
                        assert(safe_tag_char(t[k as int]));
                    }
                });
            }
            return None;
        }
        k += 1;
    }
    proof {
        assert_by_contradiction!(!triple_closes_from(t, from as int), {
            let j = choose|j: int|
                from <= j && #[trigger] triple_close_at(t, j) && (forall|m: int|
                    from <= m < j ==> safe_tag_char(#[trigger] t[m]));
            assert(safe_tag_char(t[j]));
        });
    }
    None
}

/// Decides `template_safe`.
fn check_template_safe(template: &str) -> (r: bool)
    ensures
        r == template_safe(template@),
{
    let ghost t = template@;
    let n = template.unicode_len();
    let mut i: usize = 0;
    while i < n
        invariant
            n == t.len(),
            t == template@,
            0 <= i <= n,
            forall|p: int| p < i && #[trigger] tag_open_at(t, p) ==> tag_shape_at(t, p),
        decreases n - i,
    {
        let open = i + 1 < n && template.get_char(i) == '{' && template.get_char(i + 1) == '{';
        if !open {
            proof {
                assert(!tag_open_at(t, i as int));
            }
            i += 1;
        } else if i + 2 < n && template.get_char(i + 2) == '&' {
            // {{&name}}
            match find_tag_close(template, i + 3) {
                Option::None => {
                    proof {
                        assert(!tag_closes_from(t, i + 2)) by {
                            assert_by_contradiction!(!tag_closes_from(t, i + 2), {
                                let j = choose|j: int|
                                    i + 2 <= j && #[trigger] tag_close_at(t, j) && (forall|m: int|
                                        i + 2 <= m < j ==> safe_tag_char(#[trigger] t[m]));
                                if j == i + 2 {
                                    assert(t[i + 2] == '}');
                                } else {
                                    assert(safe_tag_char(t[i + 2]));
                                }
                            });
                        }
                        assert(!tag_shape_at(t, i as int));
                        assert(tag_open_at(t, i as int));
                        assert_by_contradiction!(!template_safe(t), {
                            assert(tag_shape_at(t, i as int));
                        });
                    }
                    return false;
                },
                Option::Some(j) => {
                    proof {
                        assert forall|p: int|
                            p < j + 2 && #[trigger] tag_open_at(t, p) implies tag_shape_at(
                            t,
                            p,
                        ) by {
                            if p == i {
                                // the scanned close settles this tag
                            } else if i < p {
                                if p == i + 1 || p == i + 2 {
                                    assert(t[i + 2] == '&');
                                    assert(false);
                                } else if p < j {
                                    assert(safe_tag_char(t[p]));
                                    assert(false);
                                } else {
                                    assert(t[p] == '}');
                                    assert(false);
                                }
                            }
                        }
                    }
                    i = j + 2;
                },
            }
        } else if i + 2 < n && template.get_char(i + 2) == '{' {
            // {{{name}}}
            match find_triple_close(template, i + 3) {
                Option::None => {
                    proof {
                        assert(!tag_closes_from(t, i + 2)) by {
                            assert_by_contradiction!(!tag_closes_from(t, i + 2), {
                                let j = choose|j: int|
                                    i + 2 <= j && #[trigger] tag_close_at(t, j) && (forall|m: int|
                                        i + 2 <= m < j ==> safe_tag_char(#[trigger] t[m]));
                                if j == i + 2 {
                                    assert(t[i + 2] == '}');
                                } else {
                                    assert(safe_tag_char(t[i + 2]));
                                }
                            });
                        }
                        assert(!tag_shape_at(t, i as int));
                        assert(tag_open_at(t, i as int));
                        assert_by_contradiction!(!template_safe(t), {
                            assert(tag_shape_at(t, i as int));
                        });
                    }
                    return false;
                },
                Option::Some(j) => {
                    proof {
                        // the inner open `{{` at i + 1 is settled by the
                        // `}}` pair inside the triple close
                        assert(tag_close_at(t, j as int));
                        assert forall|p: int|
                            p < j + 3 && #[trigger] tag_open_at(t, p) implies tag_shape_at(
                            t,
                            p,
                        ) by {
                            if p == i {
                                // the scanned triple close settles this tag
                            } else if p == i + 1 {
                                assert(tag_closes_from(t, i + 3));
                            } else if i < p {
                                if p == i + 2 {
                                    if i + 3 < j {
                                        assert(safe_tag_char(t[i + 3]));
                                    } else {
                                        assert(t[i + 3] == '}');
                                    }
                                    assert(false);
                                } else if p < j {
                                    assert(safe_tag_char(t[p]));
                                    assert(false);
                                } else {
                                    assert(t[p] == '}');
                                    assert(false);
                                }
                            }
                        }
                    }
                    i = j + 3;
                },
            }
        } else {
            // {{name}}
            match find_tag_close(template, i + 2) {
                Option::None => {
                    proof {
                        assert(!tag_shape_at(t, i as int));
                        assert(tag_open_at(t, i as int));
                        assert_by_contradiction!(!template_safe(t), {
                            assert(tag_shape_at(t, i as int));
                        });
                    }
                    return false;
                },
                Option::Some(j) => {
                    proof {
                        assert forall|p: int|
                            p < j + 2 && #[trigger] tag_open_at(t, p) implies tag_shape_at(
                            t,
                            p,
                        ) by {
                            if p == i {
                                // the scanned close settles this tag
                            } else if p == i + 1 {
                                if i + 2 < j {
                                    assert(safe_tag_char(t[i + 2]));
                                } else {
                                    assert(t[i + 2] == '}');
                                }
                                assert(false);
                            } else if i + 2 <= p && p < j {
                                assert(safe_tag_char(t[p]));
                                assert(false);
                            } else if p == j || p == j + 1 {
                                assert(t[p] == '}');
                                assert(false);
                            }
                        }
                    }
                    i = j + 2;
                },
            }
        }
    }
    proof {
        assert forall|p: int| #[trigger] tag_open_at(t, p) implies tag_shape_at(t, p) by {
            assert(p < i);
        }
    }
    true
}

/// Renders a template over the given fields. Returns the text `render_of`
/// names, or nothing when the template is not plain interpolation or does
/// not compile.
pub fn render_template(template: &str, fields: &Vec<(String, String)>) -> (r: Option<String>)
    ensures
        match r {
            Some(s) => template_safe(template@) && render_of(template@, fields_view(fields@))
                == Some(s@),
            None => !template_safe(template@) || render_of(template@, fields_view(fields@))
                is None,
        },
{
    if check_template_safe(template) {
        render_mustache(template, fields)
    } else {
        None
    }
}

} // verus!

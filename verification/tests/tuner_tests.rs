use mirakc::errors::CommandError;
use mirakc::errors::Error;
use mirakc::models::Channel;
use mirakc::models::ChannelType;
use mirakc::models::TunerUser;
use mirakc::models::TunerUserInfo;
use mirakc::models::TunerUserPriority;
use mirakc::tuner::Tuner;
use mirakc::tuner::TunerConfig;
use mirakc::tuner_manager::StartStreaming;
use mirakc::tuner_manager::StopStreaming;
use mirakc::tuner_manager::TunerManager;
use mirakc::tuner_manager::TunerStreamStopTrigger;
use mirakc::filter_pipeline::FilterPipelineBuilder;

fn create_config(command: String) -> TunerConfig {
    TunerConfig {
        name: String::new(),
        channel_types: vec![ChannelType::GR],
        command,
        time_limit: 10 * 1000,
        disabled: false,
        decoded: false,
        dedicated_for: None,
    }
}

fn create_channel(channel: &str) -> Channel {
    Channel {
        name: "".to_string(),
        channel_type: ChannelType::GR,
        channel: channel.to_string(),
        extra_args: "".to_string(),
    }
}

fn create_user(priority: i32) -> TunerUser {
    TunerUser {
        info: TunerUserInfo::Job {
            name: "test".to_string(),
        },
        priority: TunerUserPriority::new(priority),
    }
}

fn manager_config() -> Vec<TunerConfig> {
    vec![
        TunerConfig {
            name: "bs".to_string(),
            channel_types: vec![ChannelType::BS],
            command: "sleep 1".to_string(),
            time_limit: 10 * 1000,
            disabled: false,
            decoded: false,
            dedicated_for: None,
        },
        TunerConfig {
            name: "gr".to_string(),
            channel_types: vec![ChannelType::GR],
            command: "sleep 1".to_string(),
            time_limit: 10 * 1000,
            disabled: false,
            decoded: false,
            dedicated_for: None,
        },
        TunerConfig {
            name: "dedicated".to_string(),
            channel_types: vec![ChannelType::GR],
            command: "sleep 1".to_string(),
            time_limit: 10 * 1000,
            disabled: false,
            decoded: false,
            dedicated_for: Some("tracker".to_string()),
        },
    ]
}

#[test]
fn test_start_streaming() {
    let configs = manager_config();
    let trackers = vec!["tracker".to_string()];
    let mut manager = TunerManager::new(&configs, &trackers, String::new());

    let result = manager.handle_start_streaming(StartStreaming {
        channel: create_channel("0"),
        user: create_user(0),
    });
    let sub1 = result.unwrap();
    assert_eq!(sub1.id.session_id.tuner_index, 1);

    // Reuse the tuner
    let result = manager.handle_start_streaming(StartStreaming {
        channel: create_channel("0"),
        user: create_user(1),
    });
    let sub2 = result.unwrap();
    assert_eq!(sub2.id.session_id, sub1.id.session_id);
    assert_ne!(sub2.id, sub1.id);

    // Lower and same priority user cannot grab the tuner
    let result = manager.handle_start_streaming(StartStreaming {
        channel: create_channel("1"),
        user: create_user(1),
    });
    assert_eq!(result.err(), Some(Error::TunerUnavailable));

    // Higher priority user can grab the tuner
    let result = manager.handle_start_streaming(StartStreaming {
        channel: create_channel("1"),
        user: create_user(2),
    });
    let sub3 = result.unwrap();
    assert_eq!(sub3.id.session_id.tuner_index, 1);
    assert_ne!(sub3.id.session_id, sub1.id.session_id);

    // Dedicated tuner
    let result = manager.handle_start_streaming(StartStreaming {
        channel: create_channel("0"),
        user: TunerUser {
            info: TunerUserInfo::OnairProgramTracker {
                name: "tracker".to_string(),
            },
            priority: TunerUserPriority::new(0),
        },
    });
    let sub4 = result.unwrap();
    assert_eq!(sub4.id.session_id.tuner_index, 2);
    assert_ne!(sub4.id.session_id, sub1.id.session_id);
}

#[test]
fn test_start_streaming_grab_priority() {
    // The sentinel priority always wins, even against itself.
    let configs = manager_config();
    let trackers = vec!["tracker".to_string()];
    let mut manager = TunerManager::new(&configs, &trackers, String::new());

    let grab_user = TunerUser {
        info: TunerUserInfo::Job {
            name: "grabber".to_string(),
        },
        priority: TunerUserPriority::grab(),
    };
    manager
        .handle_start_streaming(StartStreaming {
            channel: create_channel("0"),
            user: grab_user.clone(),
        })
        .unwrap();
    let result = manager.handle_start_streaming(StartStreaming {
        channel: create_channel("1"),
        user: grab_user,
    });
    assert!(result.is_ok());
}

#[test]
fn test_stop_streaming() {
    let configs = manager_config();
    let trackers = vec!["tracker".to_string()];
    let mut manager = TunerManager::new(&configs, &trackers, String::new());

    let sub = manager
        .handle_start_streaming(StartStreaming {
            channel: create_channel("0"),
            user: create_user(0),
        })
        .unwrap();
    let trigger = TunerStreamStopTrigger::new(sub.id);
    let msg: StopStreaming = trigger.fire();
    assert_eq!(msg.id, sub.id);
    assert_eq!(manager.handle_stop_streaming(msg), Ok(()));

    // The session is gone: stopping it again finds nothing.
    let result = manager.handle_stop_streaming(StopStreaming { id: sub.id });
    assert_eq!(result, Err(Error::SessionNotFound));
}

#[test]
fn test_query_tuners() {
    let configs = manager_config();
    let trackers = vec!["tracker".to_string()];
    let mut manager = TunerManager::new(&configs, &trackers, String::new());
    manager
        .handle_start_streaming(StartStreaming {
            channel: create_channel("0"),
            user: create_user(0),
        })
        .unwrap();
    let models = manager.query_tuners(mirakc::tuner_manager::QueryTuners);
    assert_eq!(models.len(), 3);
    assert!(models[0].is_free);
    assert!(!models[1].is_free);
    assert!(models[1].is_using);
    assert_eq!(models[1].command.as_deref(), Some("sleep 1"));
    assert_eq!(models[1].users.len(), 1);
    assert_eq!(models[1].users[0].id, "job#test");
}

#[test]
fn test_tuner_is_active() {
    let config = create_config("true".to_string());
    let mut tuner = Tuner::new(0, &config, None);

    assert!(!tuner.is_active());

    let result = tuner.activate(create_channel("1"), vec![], 0);
    assert!(result.is_ok());
    assert!(tuner.is_active());
}

#[test]
fn test_tuner_activate() {
    let config = create_config("true".to_string());
    let mut tuner = Tuner::new(0, &config, None);
    let result = tuner.activate(create_channel("1"), vec![], 0);
    assert!(result.is_ok());

    let config = create_config("cmd '".to_string());
    let mut tuner = Tuner::new(0, &config, None);
    let result = tuner.activate(create_channel("1"), vec![], 1);
    assert_eq!(
        result,
        Err(Error::CommandFailed(CommandError::UnableToParse))
    );
}

#[test]
fn test_tuner_stop_streaming() {
    let config = create_config("true".to_string());
    let mut tuner = Tuner::new(1, &config, None);
    let unknown = mirakc::models::TunerSubscriptionId::new(
        mirakc::models::TunerSessionId::new(1, 999),
        1,
    );
    let result = tuner.stop_streaming(unknown);
    assert_eq!(result, Err(Error::SessionNotFound));

    let result = tuner.activate(create_channel("1"), vec![], 0);
    assert!(result.is_ok());
    let subscription = tuner
        .subscribe(TunerUser {
            info: TunerUserInfo::Web {
                id: "".to_string(),
                agent: None,
            },
            priority: TunerUserPriority::new(0),
        })
        .unwrap();

    let result = tuner.stop_streaming(unknown);
    assert_eq!(result, Err(Error::SessionNotFound));

    let result = tuner.stop_streaming(subscription.id);
    assert_eq!(result, Ok(()));
    // The last subscriber left: the tuner deactivated itself.
    assert!(!tuner.is_active());
}

#[test]
fn test_tuner_can_grab() {
    let config = create_config("true".to_string());
    let mut tuner = Tuner::new(0, &config, None);
    assert!(tuner.can_grab(TunerUserPriority::new(0)));

    tuner.activate(create_channel("1"), vec![], 0).unwrap();
    tuner.subscribe(create_user(0)).unwrap();

    assert!(!tuner.can_grab(TunerUserPriority::new(0)));
    assert!(tuner.can_grab(TunerUserPriority::new(1)));
    assert!(tuner.can_grab(TunerUserPriority::new(2)));
    assert!(tuner.can_grab(TunerUserPriority::grab()));

    tuner.subscribe(create_user(1)).unwrap();

    assert!(!tuner.can_grab(TunerUserPriority::new(0)));
    assert!(!tuner.can_grab(TunerUserPriority::new(1)));
    assert!(tuner.can_grab(TunerUserPriority::new(2)));
    assert!(tuner.can_grab(TunerUserPriority::grab()));

    tuner.subscribe(TunerUser {
        info: TunerUserInfo::Job {
            name: "test".to_string(),
        },
        priority: TunerUserPriority::grab(),
    })
    .unwrap();

    assert!(!tuner.can_grab(TunerUserPriority::new(0)));
    assert!(!tuner.can_grab(TunerUserPriority::new(1)));
    assert!(!tuner.can_grab(TunerUserPriority::new(2)));
    assert!(tuner.can_grab(TunerUserPriority::grab()));
}

#[test]
fn test_tuner_reactivate() {
    let config = create_config("true".to_string());
    let mut tuner = Tuner::new(0, &config, None);
    tuner.activate(create_channel("1"), vec![], 0).ok();

    tuner.deactivate();
    let result = tuner.activate(create_channel("2"), vec![], 1);
    assert!(result.is_ok());
}

#[test]
fn test_make_command_renders_template() {
    let mut config = create_config("recdvb {{channel}} {{duration}} -".to_string());
    config.name = "t".to_string();
    let tuner = Tuner::new(0, &config, None);
    let command = tuner.make_command(&create_channel("27")).unwrap();
    assert_eq!(command, "recdvb 27 - -");
}

#[test]
fn test_make_command_unescaped_tags() {
    // The escaped form HTML-escapes the value; the two unescaped forms
    // hand it through as it is.
    let config = create_config("x {{channel}}".to_string());
    let tuner = Tuner::new(0, &config, None);
    assert_eq!(tuner.make_command(&create_channel("a&b")).unwrap(), "x a&amp;b");

    let config = create_config("x {{{channel}}}".to_string());
    let tuner = Tuner::new(0, &config, None);
    assert_eq!(tuner.make_command(&create_channel("a&b")).unwrap(), "x a&b");

    let config = create_config("x {{&channel}}".to_string());
    let tuner = Tuner::new(0, &config, None);
    assert_eq!(tuner.make_command(&create_channel("a&b")).unwrap(), "x a&b");
}

#[test]
fn test_tuner_filter_joins_pipeline() {
    let configs = manager_config();
    let trackers = vec!["tracker".to_string()];
    let mut manager = TunerManager::new(
        &configs,
        &trackers,
        "filter --tuner {{tuner_index}} --ch {{channel}}".to_string(),
    );
    manager
        .handle_start_streaming(StartStreaming {
            channel: create_channel("27"),
            user: create_user(0),
        })
        .unwrap();
    match &manager.tuners[1].activity {
        mirakc::tuner::TunerActivity::Active(session) => {
            assert_eq!(session.command, "sleep 1");
            assert_eq!(
                session.commands,
                vec!["sleep 1", "filter --tuner 1 --ch 27"]
            );
            assert_eq!(session.pipeline_words.len(), 2);
            assert_eq!(session.pipeline_words[0], vec!["sleep", "1"]);
            assert_eq!(
                session.pipeline_words[1],
                vec!["filter", "--tuner", "1", "--ch", "27"]
            );
        }
        _ => panic!("tuner 1 must be active"),
    }
}

#[test]
fn test_filter_pipeline_builder() {
    let fields = vec![
        ("channel".to_string(), "27".to_string()),
        ("sid".to_string(), "400".to_string()),
    ];
    let mut builder = FilterPipelineBuilder::new(fields);
    builder.add_filter("decode {{channel}}").unwrap();
    // A filter that renders to whitespace is elided.
    builder.add_filter("  ").unwrap();
    builder
        .add_filter_with_content_type("pack --sid {{sid}}", "video/mp4".to_string())
        .unwrap();
    // Templates with no reading are refused: an unclosed tag, a section,
    // a comment, a delimiter change and the implicit tag.
    assert_eq!(builder.add_filter("{{#broken"), Err(Error::InvalidFilter));
    assert_eq!(builder.add_filter("{{#x}}a{{/x}}"), Err(Error::InvalidFilter));
    assert_eq!(builder.add_filter("{{!comment}}"), Err(Error::InvalidFilter));
    assert_eq!(builder.add_filter("{{=<% %>=}}<%>p%>"), Err(Error::InvalidFilter));
    assert_eq!(builder.add_filter("{{.}}"), Err(Error::InvalidFilter));
    let (filters, content_type) = builder.build();
    assert_eq!(filters, vec!["decode 27", "pack --sid 400"]);
    assert_eq!(content_type, "video/mp4");
}

#[test]
fn test_tracker_joins_existing_session() {
    let configs = manager_config();
    let trackers = vec!["tracker".to_string()];
    let mut manager = TunerManager::new(&configs, &trackers, String::new());

    let sub = manager
        .handle_start_streaming(StartStreaming {
            channel: create_channel("0"),
            user: create_user(0),
        })
        .unwrap();

    // A tracker user joins the session its stream id points at, whatever
    // channel it asks for.
    let tracker_user = TunerUser {
        info: TunerUserInfo::Tracker { stream_id: sub.id },
        priority: TunerUserPriority::new(0),
    };
    let joined = manager
        .handle_start_streaming(StartStreaming {
            channel: create_channel("9"),
            user: tracker_user,
        })
        .unwrap();
    assert_eq!(joined.id.session_id, sub.id.session_id);
    assert_ne!(joined.id, sub.id);

    // A tracker pointing at an idle tuner is refused.
    let idle_id = mirakc::models::TunerSubscriptionId::new(
        mirakc::models::TunerSessionId::new(0, 0),
        1,
    );
    let result = manager.handle_start_streaming(StartStreaming {
        channel: create_channel("0"),
        user: TunerUser {
            info: TunerUserInfo::Tracker { stream_id: idle_id },
            priority: TunerUserPriority::new(0),
        },
    });
    assert_eq!(result.err(), Some(Error::TunerUnavailable));
}

#[test]
fn test_record_pids() {
    let configs = manager_config();
    let trackers = vec!["tracker".to_string()];
    let mut manager = TunerManager::new(&configs, &trackers, String::new());
    let sub = manager
        .handle_start_streaming(StartStreaming {
            channel: create_channel("0"),
            user: create_user(0),
        })
        .unwrap();
    manager.record_pids(sub.id.session_id, vec![4242, 4243]);
    let models = manager.query_tuners(mirakc::tuner_manager::QueryTuners);
    assert_eq!(models[1].pid, Some(4242));
}

#[test]
fn test_disabled_tuners_are_skipped() {
    let mut configs = manager_config();
    configs[0].disabled = true;
    let trackers = vec!["tracker".to_string()];
    let mut manager = TunerManager::new(&configs, &trackers, String::new());
    // The GR tuner now sits at index 0.
    let sub = manager
        .handle_start_streaming(StartStreaming {
            channel: create_channel("0"),
            user: create_user(0),
        })
        .unwrap();
    assert_eq!(sub.id.session_id.tuner_index, 0);
}

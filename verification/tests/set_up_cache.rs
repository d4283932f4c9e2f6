use wheelsticks::looper::set_up_cache::{
    get_vagrantfile_contents, go, Asset, Cache, Main, Plan, Scripts, Source, Staging,
};

fn configuration(vagrantfile: Option<&str>) -> Main {
    Main {
        cache: Cache {
            scripts: Scripts {
                folder: "cache/scripts".into(),
                build: "cache/scripts/build.py".into(),
                deploy: "cache/scripts/deploy.py".into(),
                deploy_on_remote: "cache/scripts/deploy_on_remote.py".into(),
                move_to_next_version: "cache/scripts/move_to_next_version.sh".into(),
                playbook: "cache/scripts/playbook.yaml".into(),
                provision: "cache/scripts/provision.py".into(),
                provision_test: "cache/scripts/provision_test.sh".into(),
            },
            staging: Staging {
                folder: "cache/staging".into(),
                vagrantfile: "cache/staging/Vagrantfile".into(),
            },
            workbench: "cache/workbench".into(),
        },
        vagrantfile: vagrantfile.map(String::from),
    }
}

fn plan(vagrantfile: Source) -> Plan {
    Plan {
        folders: vec!["cache/scripts".into(), "cache/staging".into(), "cache/workbench".into()],
        files: vec![
            ("cache/scripts/build.py".into(), Source::Asset(Asset::Build)),
            ("cache/scripts/deploy.py".into(), Source::Asset(Asset::Deploy)),
            ("cache/scripts/deploy_on_remote.py".into(), Source::Asset(Asset::DeployOnRemote)),
            (
                "cache/scripts/move_to_next_version.sh".into(),
                Source::Asset(Asset::MoveToNextVersion),
            ),
            ("cache/scripts/playbook.yaml".into(), Source::Asset(Asset::Playbook)),
            ("cache/scripts/provision.py".into(), Source::Asset(Asset::Provision)),
            ("cache/scripts/provision_test.sh".into(), Source::Asset(Asset::ProvisionTest)),
            ("cache/staging/Vagrantfile".into(), vagrantfile),
        ],
    }
}

#[test]
fn cache_is_filled_with_the_usual_vagrantfile() {
    assert_eq!(go(&configuration(None)), plan(Source::Asset(Asset::Vagrantfile)));
}

#[test]
fn cache_is_filled_with_the_vagrantfile_that_was_named() {
    assert_eq!(
        go(&configuration(Some("my/Vagrantfile"))),
        plan(Source::File("my/Vagrantfile".into())),
    );
}

#[test]
fn vagrantfile_comes_from_the_file_that_was_named() {
    assert_eq!(get_vagrantfile_contents(&configuration(None)), Source::Asset(Asset::Vagrantfile));
    assert_eq!(
        get_vagrantfile_contents(&configuration(Some("other"))),
        Source::File("other".into()),
    );
}
